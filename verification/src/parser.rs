//! Two-pass assembler for the machine's small assembly language: the first
//! pass collects labels and `define`d symbols, the second turns each
//! instruction line into one 16-bit machine word, top four bits the opcode
//! and the rest the operand fields the opcode calls for.

pub mod error;
pub mod utils;

pub use error::ParserError;

use vstd::prelude::*;
use vstd::string::StrSliceExecFns;
use vstd::string::StringExecFns;
use vstd::arithmetic::power2::lemma2_to64;
use crate::bits::Bits;
use crate::bits::text::all_dec_digits;
use crate::bits::text::dec_value;
use crate::bits::text::parse_dec_u64;
use crate::bits::text::spec_from_str;
use crate::error::VmError;
use crate::parser::utils::charset;
use crate::parser::utils::eq_upper;
use crate::parser::utils::is_comment;
use crate::parser::utils::is_definition;
use crate::parser::utils::is_label;
use crate::parser::utils::is_space;
use crate::parser::utils::lookup_address;
use crate::parser::utils::lookup_symbol;
use crate::parser::utils::lower_char;
use crate::parser::utils::parse_address;
use crate::parser::utils::parse_cond;
use crate::parser::utils::parse_instruction;
use crate::parser::utils::parse_register_string;
use crate::parser::utils::spec_instruction_rel;
use crate::parser::utils::spec_is_definition;
use crate::parser::utils::spec_is_label;
use crate::parser::utils::spec_is_comment;
use crate::parser::utils::spec_lookup;
use crate::parser::utils::spec_mnemonic_opcode;
use crate::parser::utils::spec_register_rel;
use crate::parser::utils::upper_seq;
use crate::parser::utils::str_eq;
use crate::parser::utils::to_upper_string;

verus! {

/// The length of the whitespace-free run at the front of `t`.
pub open spec fn token_len(t: Seq<char>) -> nat
    decreases t.len(),
{
    if t.len() == 0 || is_space(t[0]) {
        0
    } else {
        1 + token_len(t.skip(1))
    }
}

/// The whitespace-separated tokens of a line, in order.
pub open spec fn tokens_of(t: Seq<char>) -> Seq<Seq<char>>
    decreases t.len(),
    via tokens_of_decreases
{
    if t.len() == 0 {
        Seq::empty()
    } else if is_space(t[0]) {
        tokens_of(t.skip(1))
    } else {
        let k = 1 + token_len(t.skip(1));
        seq![t.take(k as int)] + tokens_of(t.skip(k as int))
    }
}

#[via_fn]
proof fn tokens_of_decreases(t: Seq<char>) {
    if t.len() > 0 && !is_space(t[0]) {
        lemma_token_len(t.skip(1));
    }
}

/// The front token runs to the first whitespace character: every character
/// before `token_len` is not whitespace, and the one at it, if any, is.
pub proof fn lemma_token_len(t: Seq<char>)
    ensures
        token_len(t) <= t.len(),
        forall|j: int| 0 <= j < token_len(t) ==> !is_space(t[j]),
        token_len(t) < t.len() ==> is_space(t[token_len(t) as int]),
    decreases t.len(),
{
    if t.len() > 0 && !is_space(t[0]) {
        lemma_token_len(t.skip(1));
        assert forall|j: int| 0 <= j < token_len(t) implies !is_space(t[j]) by {
            if j > 0 {
                assert(t.skip(1)[j - 1] == t[j]);
            }
        }
        if token_len(t) < t.len() {
            assert(t.skip(1)[token_len(t) - 1] == t[token_len(t) as int]);
        }
    }
}

/// A run of non-whitespace characters closed off by whitespace or the end is
/// exactly the front token.
pub proof fn lemma_token_len_run(t: Seq<char>, k: int)
    requires
        0 <= k <= t.len(),
        forall|j: int| 0 <= j < k ==> !is_space(t[j]),
        k == t.len() || is_space(t[k]),
    ensures
        token_len(t) == k,
    decreases t.len(),
{
    if k == 0 {
    } else {
        assert(!is_space(t[0]));
        assert forall|j: int| 0 <= j < k - 1 implies !is_space(t.skip(1)[j]) by {
            assert(t.skip(1)[j] == t[j + 1]);
        }
        if k < t.len() {
            assert(t.skip(1)[k - 1] == t[k]);
        }
        lemma_token_len_run(t.skip(1), k - 1);
    }
}

/// The string with every whitespace character removed.
pub open spec fn strip_spaces(t: Seq<char>) -> Seq<char>
    decreases t.len(),
{
    if t.len() == 0 {
        Seq::empty()
    } else if is_space(t.last()) {
        strip_spaces(t.drop_last())
    } else {
        strip_spaces(t.drop_last()).push(t.last())
    }
}

/// Removes every whitespace character.
fn filter_spaces(s: &str) -> (r: String)
    ensures
        r@ == strip_spaces(s@),
{
    let n = s.unicode_len();
    let mut out = String::new();
    let mut i: usize = 0;
    proof {
        assert(s@.take(0).len() == 0);
    }
    while i < n
        invariant
            i <= n,
            n == s@.len(),
            out@ == strip_spaces(s@.take(i as int)),
        decreases n - i,
    {
        let c = s.get_char(i);
        let cu = c as u32;
        let space = cu == 32 || cu == 9 || cu == 13 || cu == 10;
        proof {
            assert(space == is_space(s@[i as int]));
            assert(s@.take(i + 1).drop_last() =~= s@.take(i as int));
            assert(s@.take(i + 1).last() == s@[i as int]);
        }
        if !space {
            let piece = s.substring_char(i, i + 1);
            out.append(piece);
            proof {
                assert(out@ =~= strip_spaces(s@.take(i + 1)));
            }
        }
        i += 1;
    }
    proof {
        assert(s@.take(n as int) =~= s@);
    }
    out
}

/// Reads one line of a compiled program: the line's binary digits, with any
/// whitespace between them ignored, as one machine word.
pub fn parse_as_instruction(line: &str) -> (r: Result<Bits<16>, VmError>)
    ensures
        spec_from_str::<16>(strip_spaces(line@), r),
{
    let squeezed = filter_spaces(line);
    proof {
        lemma2_to64();
    }
    Bits::<16>::from_str(squeezed.as_str())
}

/// The tokens kept as operands past the required ones: everything up to the
/// first comment token.
pub open spec fn take_until_comment(ts: Seq<Seq<char>>) -> Seq<Seq<char>>
    decreases ts.len(),
{
    if ts.len() == 0 {
        Seq::empty()
    } else if spec_is_comment(ts[0]) {
        Seq::empty()
    } else {
        seq![ts[0]] + take_until_comment(ts.skip(1))
    }
}

/// The operands one line yields: the first `n` unconditionally, then the rest
/// up to a comment.
pub open spec fn ops_of(operands: Seq<Seq<char>>, n: int) -> Seq<Seq<char>> {
    operands.take(n) + take_until_comment(operands.skip(n))
}

/// Pulls the operands of one line: the first `n` must be present, and any
/// further tokens before a comment are kept so the caller can refuse extras.
pub fn extract_n_operands(n: usize, operands: &Vec<String>, line: &str) -> (r: Result<
    Vec<String>,
    VmError,
>)
    ensures
        operands@.len() < n ==> (r matches Err(VmError::Parser(ParserError::MissingOperand(l)))
            && l@ == line@),
        operands@.len() >= n ==> (r matches Ok(ops) && ops.deep_view() == ops_of(
            operands.deep_view(),
            n as int,
        )),
{
    if operands.len() < n {
        return Err(VmError::Parser(ParserError::MissingOperand(line.to_owned())));
    }
    let ghost odv = operands.deep_view();
    let mut out: Vec<String> = Vec::new();
    let mut i: usize = 0;
    while i < n
        invariant
            i <= n,
            n <= operands@.len(),
            odv == operands.deep_view(),
            out.deep_view() =~= odv.take(i as int),
        decreases n - i,
    {
        let ghost before = out.deep_view();
        out.push(operands[i].clone());
        proof {
            assert(out.deep_view() =~= before.push(odv[i as int]));
            assert(out.deep_view() =~= odv.take(i + 1));
        }
        i += 1;
    }
    while i < operands.len()
        invariant
            n <= i <= operands@.len(),
            odv == operands.deep_view(),
            out.deep_view().take(n as int) =~= odv.take(n as int),
            out.deep_view().len() >= n,
            take_until_comment(odv.skip(n as int)) == out.deep_view().skip(n as int)
                + take_until_comment(odv.skip(i as int)),
        decreases operands@.len() - i,
    {
        proof {
            assert(odv.skip(i as int)[0] == odv[i as int]);
            assert(odv[i as int] == operands@[i as int]@);
            assert(odv.skip(i as int).skip(1) =~= odv.skip(i + 1));
        }
        if is_comment(operands[i].as_str()) {
            proof {
                assert(take_until_comment(odv.skip(i as int)) =~= Seq::<Seq<char>>::empty());
                assert(out.deep_view() =~= out.deep_view().take(n as int) + out.deep_view().skip(
                    n as int,
                ));
                assert(out.deep_view() =~= ops_of(odv, n as int));
            }
            return Ok(out);
        }
        let ghost before = out.deep_view();
        out.push(operands[i].clone());
        proof {
            assert(out.deep_view() =~= before.push(odv[i as int]));
            assert(out.deep_view().skip(n as int) =~= before.skip(n as int).push(odv[i as int]));
            assert(out.deep_view().take(n as int) =~= before.take(n as int));
            assert(before.skip(n as int).push(odv[i as int]) + take_until_comment(
                odv.skip(i + 1),
            ) =~= before.skip(n as int) + (seq![odv[i as int]] + take_until_comment(
                odv.skip(i + 1),
            )));
        }
        i += 1;
    }
    proof {
        assert(odv.skip(operands@.len() as int).len() == 0);
        assert(take_until_comment(odv.skip(operands@.len() as int)) =~= Seq::<Seq<char>>::empty());
        assert(out.deep_view() =~= out.deep_view().take(n as int) + out.deep_view().skip(n as int));
        assert(out.deep_view() =~= ops_of(odv, n as int));
    }
    Ok(out)
}

/// Reads a load or store offset: `-<n>` is the two's-complement of a small
/// decimal, a `define`d symbol gives its value's low bits, and anything else
/// is read as a 4-bit number; unreadable text is refused as an operand.
pub fn parse_offset(offset: &str, symbols: &Vec<(String, Bits<8>)>) -> (r: Result<
    Bits<4>,
    VmError,
>)
    ensures
        ({
            let t = offset@;
            if t.len() > 0 && t[0] == '-' {
                let d = t.skip(1);
                if d.len() > 0 && all_dec_digits(d) && dec_value(d) <= 16 {
                    r matches Ok(b) && b.value() == (16 - dec_value(d)) % 16
                } else {
                    (r matches Err(VmError::Parser(ParserError::InvalidInstruction(m))) && m@
                        == t)
                }
            } else {
                match spec_lookup(symbols@, t) {
                    Some(v) => r matches Ok(b) && b.value() == v.value() % 16,
                    None => {
                        &&& (r matches Ok(b) ==> spec_from_str::<4>(t, Ok(b)))
                        &&& (r matches Err(e) ==> (e matches VmError::Parser(
                            ParserError::InvalidInstruction(m),
                        ) && m@ == t && (exists|e2: VmError|
                            spec_from_str::<4>(t, Err::<Bits<4>, VmError>(e2)))))
                    },
                }
            }
        }),
{
    proof {
        lemma2_to64();
    }
    let n = offset.unicode_len();
    if n > 0 && offset.get_char(0) == '-' {
        let rest = offset.substring_char(1, n);
        match parse_dec_u64(rest) {
            Some(num) => {
                if num > 16 {
                    return Err(
                        VmError::Parser(ParserError::InvalidInstruction(offset.to_owned())),
                    );
                }
                Ok(Bits::<4>::from_unsigned_truncated(16 - num))
            },
            None => Err(VmError::Parser(ParserError::InvalidInstruction(offset.to_owned()))),
        }
    } else {
        match lookup_symbol(symbols, offset) {
            Some(value) => Ok(value.resize::<4>()),
            None => {
                match Bits::<4>::from_str(offset) {
                    Ok(b) => Ok(b),
                    Err(_) => Err(
                        VmError::Parser(ParserError::InvalidInstruction(offset.to_owned())),
                    ),
                }
            },
        }
    }
}

/// The index a quoted character assembles to: its place in the display's
/// character set, after lowercase folding.
fn charset_index(c: char) -> (r: Option<u64>)
    ensures
        r matches Some(v) ==> v < 30 && charset()[v as int] == lower_char(c),
        r is None ==> forall|k: int| 0 <= k < 30 ==> charset()[k] != lower_char(c),
{
    proof {
        reveal_strlit(" abcdefghijklmnopqrstuvwxyz.!?");
    }
    let chars = " abcdefghijklmnopqrstuvwxyz.!?";
    let cu = c as u32;
    let low = if 65 <= cu && cu <= 90 {
        cu + 32
    } else {
        cu
    };
    proof {
        assert(lower_char(c) as u32 == low);
    }
    let mut k: usize = 0;
    while k < 30
        invariant
            k <= 30,
            chars@ == charset(),
            charset().len() == 30,
            low == lower_char(c) as u32,
            forall|j: int| 0 <= j < k ==> charset()[j] != lower_char(c),
        decreases 30 - k,
    {
        if chars.get_char(k) as u32 == low {
            proof {
                assert(charset()[k as int] == lower_char(c));
            }
            return Some(k as u64);
        }
        proof {
            assert(charset()[k as int] != lower_char(c));
        }
        k += 1;
    }
    None
}

/// The device port a symbolic port name denotes, as an offset into the
/// memory-mapped window at 240.
pub open spec fn spec_portname_index(t: Seq<char>) -> Option<nat> {
    if t == "pixel_x"@ {
        Some(0nat)
    } else if t == "pixel_y"@ {
        Some(1nat)
    } else if t == "draw_pixel"@ {
        Some(2nat)
    } else if t == "clear_pixel"@ {
        Some(3nat)
    } else if t == "load_pixel"@ {
        Some(4nat)
    } else if t == "buffer_screen"@ {
        Some(5nat)
    } else if t == "clear_screen_buffer"@ {
        Some(6nat)
    } else if t == "write_char"@ {
        Some(7nat)
    } else if t == "buffer_chars"@ {
        Some(8nat)
    } else if t == "clear_chars_buffer"@ {
        Some(9nat)
    } else if t == "show_number"@ {
        Some(10nat)
    } else if t == "clear_number"@ {
        Some(11nat)
    } else if t == "signed_mode"@ {
        Some(12nat)
    } else if t == "unsigned_mode"@ {
        Some(13nat)
    } else if t == "rng"@ {
        Some(14nat)
    } else if t == "controller_input"@ {
        Some(15nat)
    } else {
        None
    }
}

/// The port a name denotes, if any.
fn portname_index(imm: &str) -> (r: Option<u64>)
    ensures
        ({
            match spec_portname_index(imm@) {
                Some(v) => r == Some(v as u64),
                None => r is None,
            }
        }),
{
    proof {
        reveal_strlit("pixel_x");
        reveal_strlit("pixel_y");
        reveal_strlit("draw_pixel");
        reveal_strlit("clear_pixel");
        reveal_strlit("load_pixel");
        reveal_strlit("buffer_screen");
        reveal_strlit("clear_screen_buffer");
        reveal_strlit("write_char");
        reveal_strlit("buffer_chars");
        reveal_strlit("clear_chars_buffer");
        reveal_strlit("show_number");
        reveal_strlit("clear_number");
        reveal_strlit("signed_mode");
        reveal_strlit("unsigned_mode");
        reveal_strlit("rng");
        reveal_strlit("controller_input");
    }
    if str_eq(imm, "pixel_x") {
        Some(0)
    } else if str_eq(imm, "pixel_y") {
        Some(1)
    } else if str_eq(imm, "draw_pixel") {
        Some(2)
    } else if str_eq(imm, "clear_pixel") {
        Some(3)
    } else if str_eq(imm, "load_pixel") {
        Some(4)
    } else if str_eq(imm, "buffer_screen") {
        Some(5)
    } else if str_eq(imm, "clear_screen_buffer") {
        Some(6)
    } else if str_eq(imm, "write_char") {
        Some(7)
    } else if str_eq(imm, "buffer_chars") {
        Some(8)
    } else if str_eq(imm, "clear_chars_buffer") {
        Some(9)
    } else if str_eq(imm, "show_number") {
        Some(10)
    } else if str_eq(imm, "clear_number") {
        Some(11)
    } else if str_eq(imm, "signed_mode") {
        Some(12)
    } else if str_eq(imm, "unsigned_mode") {
        Some(13)
    } else if str_eq(imm, "rng") {
        Some(14)
    } else if str_eq(imm, "controller_input") {
        Some(15)
    } else {
        None
    }
}

/// Reads an 8-bit immediate: a quoted character gives its character-set
/// index, a port name its port address, a `define`d symbol its value, and
/// anything else is read as an 8-bit number.
pub fn parse_immediate(imm: &str, symbols: &Vec<(String, Bits<8>)>) -> (r: Result<
    Bits<8>,
    VmError,
>)
    ensures
        ({
            let t = imm@;
            let quoted = t.len() == 3 && ((t[0] == '"' && t[2] == '"') || (t[0] == '\'' && t[2]
                == '\''));
            if quoted && (exists|k: int| 0 <= k < 30 && charset()[k] == lower_char(t[1])) {
                r matches Ok(b) && b.value() < 30 && charset()[b.value() as int] == lower_char(
                    t[1],
                )
            } else if !quoted {
                match spec_portname_index(t) {
                    Some(p) => r matches Ok(b) && b.value() == 240 + p,
                    None => match spec_lookup(symbols@, t) {
                        Some(v) => r == Ok::<Bits<8>, VmError>(v),
                        None => spec_from_str::<8>(t, r),
                    },
                }
            } else {
                // a quoted character outside the character set falls through
                // to the numeric reading
                spec_from_str::<8>(t, r)
            }
        }),
{
    proof {
        lemma2_to64();
    }
    let n = imm.unicode_len();
    let quoted = n == 3 && ((imm.get_char(0) == '"' && imm.get_char(2) == '"') || (imm.get_char(0)
        == '\'' && imm.get_char(2) == '\''));
    if quoted {
        match charset_index(imm.get_char(1)) {
            Some(idx) => {
                return Ok(Bits::<8>::from_unsigned_truncated(idx));
            },
            None => {},
        }
    }
    if !quoted {
        match portname_index(imm) {
            Some(idx) => {
                return Ok(Bits::<8>::from_unsigned_truncated(240 + idx));
            },
            None => {},
        }
        match lookup_symbol(symbols, imm) {
            Some(value) => {
                return Ok(value);
            },
            None => {},
        }
        return Bits::<8>::from_str(imm);
    }
    Bits::<8>::from_str(imm)
}

/// One machine word from an opcode and three 4-bit fields, highest field
/// first.
fn word_rrr(op: Bits<4>, f1: Bits<4>, f2: Bits<4>, f3: Bits<4>) -> (w: Bits<16>)
    ensures
        w@.subrange(12, 16) == op@,
        w@.subrange(8, 12) == f1@,
        w@.subrange(4, 8) == f2@,
        w@.subrange(0, 4) == f3@,
{
    let mut bit_array = [false; 16];
    let mut i: usize = 0;
    while i < 4
        invariant
            i <= 4,
            forall|j: int| 0 <= j < i ==> bit_array@[j] == f3@[j],
            forall|j: int| 0 <= j < i ==> bit_array@[j + 4] == f2@[j],
            forall|j: int| 0 <= j < i ==> bit_array@[j + 8] == f1@[j],
            forall|j: int| 0 <= j < i ==> bit_array@[j + 12] == op@[j],
        decreases 4 - i,
    {
        bit_array[i] = f3.bit_array[i];
        bit_array[i + 4] = f2.bit_array[i];
        bit_array[i + 8] = f1.bit_array[i];
        bit_array[i + 12] = op.bit_array[i];
        i += 1;
    }
    let w = Bits { bit_array };
    proof {
        assert(w@.subrange(12, 16) =~= op@);
        assert(w@.subrange(8, 12) =~= f1@);
        assert(w@.subrange(4, 8) =~= f2@);
        assert(w@.subrange(0, 4) =~= f3@);
    }
    w
}

/// One machine word from an opcode, a register field and an 8-bit immediate.
fn word_ri(op: Bits<4>, f1: Bits<4>, imm: Bits<8>) -> (w: Bits<16>)
    ensures
        w@.subrange(12, 16) == op@,
        w@.subrange(8, 12) == f1@,
        w@.subrange(0, 8) == imm@,
{
    let mut bit_array = [false; 16];
    let mut i: usize = 0;
    while i < 8
        invariant
            i <= 8,
            forall|j: int| 0 <= j < i ==> bit_array@[j] == imm@[j],
            forall|j: int| 0 <= j < i && j < 4 ==> bit_array@[j + 8] == f1@[j],
            forall|j: int| 0 <= j < i && j < 4 ==> bit_array@[j + 12] == op@[j],
        decreases 8 - i,
    {
        bit_array[i] = imm.bit_array[i];
        if i < 4 {
            bit_array[i + 8] = f1.bit_array[i];
            bit_array[i + 12] = op.bit_array[i];
        }
        i += 1;
    }
    let w = Bits { bit_array };
    proof {
        assert(w@.subrange(12, 16) =~= op@);
        assert(w@.subrange(8, 12) =~= f1@);
        assert(w@.subrange(0, 8) =~= imm@);
    }
    w
}

/// One machine word from an opcode, a 2-bit condition and a 10-bit address.
fn word_ca(op: Bits<4>, cond: Bits<2>, addr: Bits<10>) -> (w: Bits<16>)
    ensures
        w@.subrange(12, 16) == op@,
        w@.subrange(10, 12) == cond@,
        w@.subrange(0, 10) == addr@,
{
    let mut bit_array = [false; 16];
    let mut i: usize = 0;
    while i < 10
        invariant
            i <= 10,
            forall|j: int| 0 <= j < i ==> bit_array@[j] == addr@[j],
            forall|j: int| 0 <= j < i && j < 2 ==> bit_array@[j + 10] == cond@[j],
            forall|j: int| 0 <= j < i && j < 4 ==> bit_array@[j + 12] == op@[j],
        decreases 10 - i,
    {
        bit_array[i] = addr.bit_array[i];
        if i < 2 {
            bit_array[i + 10] = cond.bit_array[i];
        }
        if i < 4 {
            bit_array[i + 12] = op.bit_array[i];
        }
        i += 1;
    }
    let w = Bits { bit_array };
    proof {
        assert(w@.subrange(12, 16) =~= op@);
        assert(w@.subrange(10, 12) =~= cond@);
        assert(w@.subrange(0, 10) =~= addr@);
    }
    w
}

/// Splits text into lines at newline characters; the newlines are dropped.
/// Text without a newline is one line, or none when it is empty.
fn split_lines(s: &str) -> (r: Vec<String>)
    ensures
        forall|k: int, j: int|
            0 <= k < r@.len() && 0 <= j < r@[k]@.len() ==> r@[k]@[j] != '\n',
        (forall|j: int| 0 <= j < s@.len() ==> s@[j] != '\n') ==> (if s@.len() == 0 {
            r@.len() == 0
        } else {
            r.deep_view() == seq![s@]
        }),
{
    let n = s.unicode_len();
    let mut out: Vec<String> = Vec::new();
    let mut start: usize = 0;
    let mut i: usize = 0;
    while i < n
        invariant
            start <= i <= n,
            n == s@.len(),
            forall|j: int| start <= j < i ==> s@[j] != '\n',
            forall|k: int, j: int|
                0 <= k < out@.len() && 0 <= j < out@[k]@.len() ==> out@[k]@[j] != '\n',
            (forall|j: int| 0 <= j < s@.len() ==> s@[j] != '\n') ==> (start == 0 && out@.len()
                == 0),
        decreases n - i,
    {
        if s.get_char(i) == '\n' {
            let line = s.substring_char(start, i);
            out.push(line.to_owned());
            start = i + 1;
        }
        i += 1;
    }
    if start < n {
        let line = s.substring_char(start, n);
        let ghost before = out.deep_view();
        out.push(line.to_owned());
        proof {
            if forall|j: int| 0 <= j < s@.len() ==> s@[j] != '\n' {
                assert(line@ =~= s@);
                assert(out.deep_view() =~= seq![s@]);
            }
        }
    }
    out
}

/// The string with its leading whitespace dropped.
pub open spec fn trim_front(t: Seq<char>) -> Seq<char>
    decreases t.len(),
{
    if t.len() > 0 && is_space(t[0]) {
        trim_front(t.skip(1))
    } else {
        t
    }
}

/// The string with its trailing whitespace dropped.
pub open spec fn trim_back(t: Seq<char>) -> Seq<char>
    decreases t.len(),
{
    if t.len() > 0 && is_space(t.last()) {
        trim_back(t.drop_last())
    } else {
        t
    }
}

/// The string with leading and trailing whitespace dropped.
pub open spec fn trim_spec(t: Seq<char>) -> Seq<char> {
    trim_back(trim_front(t))
}

/// Removes leading and trailing whitespace.
fn trim(s: &str) -> (r: String)
    ensures
        r@ == trim_spec(s@),
{
    let n = s.unicode_len();
    let mut from: usize = 0;
    proof {
        assert(s@.skip(0) =~= s@);
    }
    while from < n
        invariant
            from <= n,
            n == s@.len(),
            trim_front(s@) == trim_front(s@.skip(from as int)),
        ensures
            from <= n,
            n == s@.len(),
            trim_front(s@) == trim_front(s@.skip(from as int)),
            from == n || !is_space(s@[from as int]),
        decreases n - from,
    {
        let cu = s.get_char(from) as u32;
        proof {
            assert((cu == 32 || cu == 9 || cu == 13 || cu == 10) == is_space(s@[from as int]));
            assert(s@.skip(from as int)[0] == s@[from as int]);
            assert(s@.skip(from as int).skip(1) =~= s@.skip(from + 1));
        }
        if !(cu == 32 || cu == 9 || cu == 13 || cu == 10) {
            break ;
        }
        from += 1;
    }
    proof {
        if from == n {
            assert(s@.skip(n as int) =~= Seq::<char>::empty());
        }
        assert(trim_front(s@) == s@.skip(from as int));
        assert(s@.subrange(from as int, n as int) =~= s@.skip(from as int));
    }
    let mut to: usize = n;
    while to > from
        invariant
            from <= to <= n,
            n == s@.len(),
            trim_back(s@.skip(from as int)) == trim_back(s@.subrange(from as int, to as int)),
        ensures
            from <= to <= n,
            n == s@.len(),
            trim_back(s@.skip(from as int)) == trim_back(s@.subrange(from as int, to as int)),
            to == from || !is_space(s@[to - 1]),
        decreases to,
    {
        let cu = s.get_char(to - 1) as u32;
        proof {
            assert((cu == 32 || cu == 9 || cu == 13 || cu == 10) == is_space(s@[to - 1]));
            let seg = s@.subrange(from as int, to as int);
            assert(seg.last() == s@[to - 1]);
            assert(seg.drop_last() =~= s@.subrange(from as int, to - 1));
        }
        if !(cu == 32 || cu == 9 || cu == 13 || cu == 10) {
            break ;
        }
        to -= 1;
    }
    proof {
        if to == from {
            assert(s@.subrange(from as int, from as int).len() == 0);
        }
        assert(trim_back(s@.subrange(from as int, to as int)) == s@.subrange(
            from as int,
            to as int,
        ));
    }
    s.substring_char(from, to).to_owned()
}

/// Splits a line into whitespace-separated tokens.
fn split_tokens(s: &str) -> (r: Vec<String>)
    ensures
        r.deep_view() == tokens_of(s@),
        forall|k: int| 0 <= k < r@.len() ==> r@[k]@.len() > 0,
{
    let n = s.unicode_len();
    let mut out: Vec<String> = Vec::new();
    let mut i: usize = 0;
    proof {
        assert(s@.skip(0) =~= s@);
    }
    while i < n
        invariant
            i <= n,
            n == s@.len(),
            tokens_of(s@) == out.deep_view() + tokens_of(s@.skip(i as int)),
            forall|k: int| 0 <= k < out@.len() ==> out@[k]@.len() > 0,
        decreases n - i,
    {
        let cu = s.get_char(i) as u32;
        proof {
            assert((cu == 32 || cu == 9 || cu == 13 || cu == 10) == is_space(s@[i as int]));
            assert(s@.skip(i as int)[0] == s@[i as int]);
        }
        if cu == 32 || cu == 9 || cu == 13 || cu == 10 {
            proof {
                assert(s@.skip(i as int).skip(1) =~= s@.skip(i + 1));
            }
            i += 1;
        } else {
            let start = i;
            i += 1;
            while i < n
                invariant
                    start < i <= n,
                    n == s@.len(),
                    forall|j: int| start <= j < i ==> !is_space(s@[j]),
                ensures
                    start < i <= n,
                    n == s@.len(),
                    forall|j: int| start <= j < i ==> !is_space(s@[j]),
                    i == n || is_space(s@[i as int]),
                decreases n - i,
            {
                let cu2 = s.get_char(i) as u32;
                proof {
                    assert((cu2 == 32 || cu2 == 9 || cu2 == 13 || cu2 == 10) == is_space(
                        s@[i as int],
                    ));
                }
                if cu2 == 32 || cu2 == 9 || cu2 == 13 || cu2 == 10 {
                    break ;
                }
                i += 1;
            }
            let token = s.substring_char(start, i);
            proof {
                let rest = s@.skip(start as int);
                assert forall|j: int| 0 <= j < i - start implies !is_space(rest[j]) by {
                    assert(rest[j] == s@[start + j]);
                }
                if (i as int) < n {
                    assert(rest[i - start] == s@[i as int]);
                }
                lemma_token_len_run(rest, i - start);
                assert(rest.take(i - start) =~= s@.subrange(start as int, i as int));
                assert(rest.skip(i - start) =~= s@.skip(i as int));
            }
            let ghost before = out.deep_view();
            out.push(token.to_owned());
            proof {
                assert(out.deep_view() =~= before.push(token@));
                assert(tokens_of(s@) =~= out.deep_view() + tokens_of(s@.skip(i as int)));
            }
        }
    }
    proof {
        assert(s@.skip(n as int) =~= Seq::<char>::empty());
        assert(out.deep_view() =~= out.deep_view() + tokens_of(s@.skip(n as int)));
    }
    out
}

/// The first pass: walks the lines, records each `.label` with the address of
/// the next instruction line and each `define` with its value, and returns
/// the remaining text lines with labels and definitions taken out. Text of
/// one line that is neither a label nor a definition passes through whole:
/// trimmed, kept exactly when it is a nonempty non-comment line, with no
/// binding recorded.
pub fn find_and_remove_symbols(
    content: &str,
    labels: &mut Vec<(String, Bits<10>)>,
    symbols: &mut Vec<(String, Bits<8>)>,
) -> (r: Result<Vec<String>, VmError>)
    ensures
        ({
            let t = trim_spec(content@);
            ((forall|j: int| 0 <= j < content@.len() ==> content@[j] != '\n') && !spec_is_label(t)
                && !spec_is_definition(t)) ==> (r matches Ok(out) && final(labels)@ == old(
                labels,
            )@ && final(symbols)@ == old(symbols)@ && (if t.len() == 0 || spec_is_comment(t) {
                out.deep_view().len() == 0
            } else {
                out.deep_view() == seq![t]
            }))
        }),
{
    let ghost single = (forall|j: int| 0 <= j < content@.len() ==> content@[j] != '\n')
        && !spec_is_label(trim_spec(content@)) && !spec_is_definition(trim_spec(content@));
    let lines = split_lines(content);
    let mut out: Vec<String> = Vec::new();
    let mut undefined_labels: Vec<String> = Vec::new();
    let mut pc: u64 = 0;
    let mut li: usize = 0;
    proof {
        lemma2_to64();
        if single {
            if content@.len() > 0 {
                assert(lines.deep_view() == seq![content@]);
                assert(lines.deep_view().len() == 1);
                assert(lines@.len() == 1);
            }
        }
    }
    while li < lines.len()
        invariant
            li <= lines@.len(),
            single == ((forall|j: int| 0 <= j < content@.len() ==> content@[j] != '\n')
                && !spec_is_label(trim_spec(content@)) && !spec_is_definition(
                trim_spec(content@),
            )),
            single ==> lines@.len() <= 1,
            single && lines@.len() == 1 ==> lines.deep_view()[0] == content@,
            single ==> labels@ == old(labels)@ && symbols@ == old(symbols)@
                && undefined_labels@.len() == 0,
            single && li == 0 ==> out.deep_view().len() == 0,
            single && li >= 1 ==> (if trim_spec(content@).len() == 0 || spec_is_comment(
                trim_spec(content@),
            ) {
                out.deep_view().len() == 0
            } else {
                out.deep_view() == seq![trim_spec(content@)]
            }),
        decreases lines@.len() - li,
    {
        let line = trim(lines[li].as_str());
        proof {
            if single {
                assert(lines.deep_view()[li as int] == lines@[li as int]@);
                assert(line@ == trim_spec(content@));
            }
        }
        li += 1;
        if is_label(line.as_str()) {
            let n = line.as_str().unicode_len();
            let mut idx: usize = 0;
            while idx < n
                invariant
                    idx <= n,
                    n == line@.len(),
                decreases n - idx,
            {
                if line.as_str().get_char(idx) == ' ' {
                    break ;
                }
                idx += 1;
            }
            let label = line.as_str().substring_char(0, idx).to_owned();
            let rest = trim(line.as_str().substring_char(idx, n));
            if rest.as_str().unicode_len() > 0 {
                let existed = lookup_address(labels, label.as_str());
                labels.push((label.clone(), Bits::<10>::from_unsigned_truncated(pc)));
                match existed {
                    Some(_) => {},
                    None => {
                        undefined_labels.push(label);
                    },
                }
                out.push(rest);
            } else {
                undefined_labels.push(label);
            }
        } else if is_definition(line.as_str()) {
            let tokens = split_tokens(line.as_str());
            let mut after_define: Vec<String> = Vec::new();
            let mut di: usize = 1;
            while di < tokens.len()
                decreases tokens@.len() - di,
            {
                after_define.push(tokens[di].clone());
                di += 1;
            }
            // a trailing comment after the name and value is allowed
            let ops = match extract_n_operands(2, &after_define, line.as_str()) {
                Ok(o) => o,
                Err(e) => {
                    return Err(e);
                },
            };
            if ops.len() != 2 {
                return Err(VmError::Parser(ParserError::BadlyDefinedDefinition(line)));
            }
            proof {
                lemma2_to64();
            }
            let value = match Bits::<8>::from_str(ops[1].as_str()) {
                Ok(v) => v,
                Err(e) => {
                    return Err(e);
                },
            };
            symbols.push((ops[0].clone(), value));
            out.push(String::new());
        } else if is_comment(line.as_str()) {
            // comments vanish before the second pass
        } else if line.as_str().unicode_len() == 0 {
            // empty lines vanish too
        } else {
            let mut ui: usize = 0;
            while ui < undefined_labels.len()
                invariant
                    single ==> labels@ == old(labels)@ && undefined_labels@.len() == 0,
                decreases undefined_labels@.len() - ui,
            {
                labels.push(
                    (undefined_labels[ui].clone(), Bits::<10>::from_unsigned_truncated(pc)),
                );
                ui += 1;
            }
            undefined_labels = Vec::new();
            let ghost before = out.deep_view();
            out.push(line);
            proof {
                assert(out.deep_view() =~= before.push(line@));
            }
            if pc < u64::MAX {
                pc = pc + 1;
            }
        }
    }
    Ok(out)
}

/// The character-level reading of every mnemonic literal, so that distinct
/// mnemonics are seen to differ.
proof fn lemma_mnemonic_literals()
    ensures
        "NOP"@.len() == 3 && "NOP"@[0] == 'N' && "NOP"@[1] == 'O' && "NOP"@[2] == 'P',
        "HLT"@.len() == 3 && "HLT"@[0] == 'H' && "HLT"@[1] == 'L' && "HLT"@[2] == 'T',
        "RET"@.len() == 3 && "RET"@[0] == 'R' && "RET"@[1] == 'E' && "RET"@[2] == 'T',
        "INC"@.len() == 3 && "INC"@[0] == 'I' && "INC"@[1] == 'N' && "INC"@[2] == 'C',
        "DEC"@.len() == 3 && "DEC"@[0] == 'D' && "DEC"@[1] == 'E' && "DEC"@[2] == 'C',
        "JMP"@.len() == 3 && "JMP"@[0] == 'J' && "JMP"@[1] == 'M' && "JMP"@[2] == 'P',
        "CAL"@.len() == 3 && "CAL"@[0] == 'C' && "CAL"@[1] == 'A' && "CAL"@[2] == 'L',
        "CMP"@.len() == 3 && "CMP"@[0] == 'C' && "CMP"@[1] == 'M' && "CMP"@[2] == 'P',
        "MOV"@.len() == 3 && "MOV"@[0] == 'M' && "MOV"@[1] == 'O' && "MOV"@[2] == 'V',
        "LSH"@.len() == 3 && "LSH"@[0] == 'L' && "LSH"@[1] == 'S' && "LSH"@[2] == 'H',
        "NOT"@.len() == 3 && "NOT"@[0] == 'N' && "NOT"@[1] == 'O' && "NOT"@[2] == 'T',
        "LDI"@.len() == 3 && "LDI"@[0] == 'L' && "LDI"@[1] == 'D' && "LDI"@[2] == 'I',
        "ADI"@.len() == 3 && "ADI"@[0] == 'A' && "ADI"@[1] == 'D' && "ADI"@[2] == 'I',
        "BRH"@.len() == 3 && "BRH"@[0] == 'B' && "BRH"@[1] == 'R' && "BRH"@[2] == 'H',
        "RSH"@.len() == 3 && "RSH"@[0] == 'R' && "RSH"@[1] == 'S' && "RSH"@[2] == 'H',
        "LOD"@.len() == 3 && "LOD"@[0] == 'L' && "LOD"@[1] == 'O' && "LOD"@[2] == 'D',
        "STR"@.len() == 3 && "STR"@[0] == 'S' && "STR"@[1] == 'T' && "STR"@[2] == 'R',
        "ADD"@.len() == 3 && "ADD"@[0] == 'A' && "ADD"@[1] == 'D' && "ADD"@[2] == 'D',
        "SUB"@.len() == 3 && "SUB"@[0] == 'S' && "SUB"@[1] == 'U' && "SUB"@[2] == 'B',
        "AND"@.len() == 3 && "AND"@[0] == 'A' && "AND"@[1] == 'N' && "AND"@[2] == 'D',
        "NOR"@.len() == 3 && "NOR"@[0] == 'N' && "NOR"@[1] == 'O' && "NOR"@[2] == 'R',
        "XOR"@.len() == 3 && "XOR"@[0] == 'X' && "XOR"@[1] == 'O' && "XOR"@[2] == 'R',
{
    reveal_strlit("NOP");
    reveal_strlit("HLT");
    reveal_strlit("RET");
    reveal_strlit("INC");
    reveal_strlit("DEC");
    reveal_strlit("JMP");
    reveal_strlit("CAL");
    reveal_strlit("CMP");
    reveal_strlit("MOV");
    reveal_strlit("LSH");
    reveal_strlit("NOT");
    reveal_strlit("LDI");
    reveal_strlit("ADI");
    reveal_strlit("BRH");
    reveal_strlit("RSH");
    reveal_strlit("LOD");
    reveal_strlit("STR");
    reveal_strlit("ADD");
    reveal_strlit("SUB");
    reveal_strlit("AND");
    reveal_strlit("NOR");
    reveal_strlit("XOR");
    assert("NOP"@.len() == 3 && "NOP"@[0] == 'N' && "NOP"@[1] == 'O' && "NOP"@[2] == 'P');
    assert("HLT"@.len() == 3 && "HLT"@[0] == 'H' && "HLT"@[1] == 'L' && "HLT"@[2] == 'T');
    assert("RET"@.len() == 3 && "RET"@[0] == 'R' && "RET"@[1] == 'E' && "RET"@[2] == 'T');
    assert("INC"@.len() == 3 && "INC"@[0] == 'I' && "INC"@[1] == 'N' && "INC"@[2] == 'C');
    assert("DEC"@.len() == 3 && "DEC"@[0] == 'D' && "DEC"@[1] == 'E' && "DEC"@[2] == 'C');
    assert("JMP"@.len() == 3 && "JMP"@[0] == 'J' && "JMP"@[1] == 'M' && "JMP"@[2] == 'P');
    assert("CAL"@.len() == 3 && "CAL"@[0] == 'C' && "CAL"@[1] == 'A' && "CAL"@[2] == 'L');
    assert("CMP"@.len() == 3 && "CMP"@[0] == 'C' && "CMP"@[1] == 'M' && "CMP"@[2] == 'P');
    assert("MOV"@.len() == 3 && "MOV"@[0] == 'M' && "MOV"@[1] == 'O' && "MOV"@[2] == 'V');
    assert("LSH"@.len() == 3 && "LSH"@[0] == 'L' && "LSH"@[1] == 'S' && "LSH"@[2] == 'H');
    assert("NOT"@.len() == 3 && "NOT"@[0] == 'N' && "NOT"@[1] == 'O' && "NOT"@[2] == 'T');
    assert("LDI"@.len() == 3 && "LDI"@[0] == 'L' && "LDI"@[1] == 'D' && "LDI"@[2] == 'I');
    assert("ADI"@.len() == 3 && "ADI"@[0] == 'A' && "ADI"@[1] == 'D' && "ADI"@[2] == 'I');
    assert("BRH"@.len() == 3 && "BRH"@[0] == 'B' && "BRH"@[1] == 'R' && "BRH"@[2] == 'H');
    assert("RSH"@.len() == 3 && "RSH"@[0] == 'R' && "RSH"@[1] == 'S' && "RSH"@[2] == 'H');
    assert("LOD"@.len() == 3 && "LOD"@[0] == 'L' && "LOD"@[1] == 'O' && "LOD"@[2] == 'D');
    assert("STR"@.len() == 3 && "STR"@[0] == 'S' && "STR"@[1] == 'T' && "STR"@[2] == 'R');
    assert("ADD"@.len() == 3 && "ADD"@[0] == 'A' && "ADD"@[1] == 'D' && "ADD"@[2] == 'D');
    assert("SUB"@.len() == 3 && "SUB"@[0] == 'S' && "SUB"@[1] == 'U' && "SUB"@[2] == 'B');
    assert("AND"@.len() == 3 && "AND"@[0] == 'A' && "AND"@[1] == 'N' && "AND"@[2] == 'D');
    assert("NOR"@.len() == 3 && "NOR"@[0] == 'N' && "NOR"@[1] == 'O' && "NOR"@[2] == 'R');
    assert("XOR"@.len() == 3 && "XOR"@[0] == 'X' && "XOR"@[1] == 'O' && "XOR"@[2] == 'R');
}

/// The table opcodes of the three-register family, reduced for an
/// already-uppercase reading of the mnemonic.
proof fn lemma_family_opcode(t: Seq<char>)
    ensures
        upper_seq(t) == "ADD"@ ==> spec_mnemonic_opcode(t) == Some(2nat),
        upper_seq(t) == "SUB"@ ==> spec_mnemonic_opcode(t) == Some(3nat),
        upper_seq(t) == "NOR"@ ==> spec_mnemonic_opcode(t) == Some(4nat),
        upper_seq(t) == "AND"@ ==> spec_mnemonic_opcode(t) == Some(5nat),
        upper_seq(t) == "XOR"@ ==> spec_mnemonic_opcode(t) == Some(6nat),
{
    lemma_mnemonic_literals();
}

/// The opcode a line's mnemonic assembles with: its own table opcode, or the
/// opcode of the instruction a pseudo-instruction expands to (INC and DEC
/// become ADI, CMP becomes SUB, MOV and LSH become ADD, NOT becomes NOR).
pub open spec fn spec_opcode_choice(m: Seq<char>, op: Bits<4>) -> bool {
    let u = upper_seq(m);
    ||| spec_instruction_rel(m, Ok::<Bits<4>, VmError>(op))
    ||| ((u == "INC"@ || u == "DEC"@) && op.value() == 9)
    ||| (u == "CMP"@ && op.value() == 3)
    ||| ((u == "MOV"@ || u == "LSH"@) && op.value() == 2)
    ||| (u == "NOT"@ && op.value() == 4)
}

/// What a three-register arithmetic or logic line assembles to: the first
/// operand error, or the opcode with the three parsed register fields.
pub open spec fn spec_three_reg_rel(
    op: Bits<4>,
    ops: Seq<Seq<char>>,
    r: Result<Option<Bits<16>>, VmError>,
) -> bool {
    ||| (exists|e: VmError|
        #[trigger] spec_register_rel(ops[0], Err::<Bits<4>, VmError>(e)) && r == Err::<
            Option<Bits<16>>,
            VmError,
        >(e))
    ||| (exists|b1: Bits<4>|
        #[trigger] spec_register_rel(ops[0], Ok::<Bits<4>, VmError>(b1)) && {
            ||| (exists|e: VmError|
                #[trigger] spec_register_rel(ops[1], Err::<Bits<4>, VmError>(e)) && r == Err::<
                    Option<Bits<16>>,
                    VmError,
                >(e))
            ||| (exists|b2: Bits<4>|
                #[trigger] spec_register_rel(ops[1], Ok::<Bits<4>, VmError>(b2)) && {
                    ||| (exists|e: VmError|
                        #[trigger] spec_register_rel(ops[2], Err::<Bits<4>, VmError>(e)) && r
                            == Err::<Option<Bits<16>>, VmError>(e))
                    ||| (exists|b3: Bits<4>|
                        #[trigger] spec_register_rel(ops[2], Ok::<Bits<4>, VmError>(b3)) && (r
                            matches Ok(Some(w)) && w@.subrange(12, 16) == op@ && w@.subrange(8, 12)
                            == b1@ && w@.subrange(4, 8) == b2@ && w@.subrange(0, 4) == b3@))
                })
        })
}

/// The second pass over one instruction line: the mnemonic selects the word
/// layout, the operands fill its fields.
fn assemble_line(
    line: &str,
    tokens: &Vec<String>,
    labels: &Vec<(String, Bits<10>)>,
    symbols: &Vec<(String, Bits<8>)>,
) -> (r: Result<Option<Bits<16>>, VmError>)
    requires
        forall|k: int| 0 <= k < tokens@.len() ==> #[trigger] tokens@[k]@.len() > 0,
    ensures
        (tokens@.len() == 0 || spec_is_comment(line@)) <==> r == Ok::<Option<Bits<16>>, VmError>(
            None,
        ),
        r matches Ok(Some(w)) ==> (exists|op: Bits<4>|
            #[trigger] spec_opcode_choice(tokens@[0]@, op) && w@.subrange(12, 16) == op@),
        ({
            let m = upper_seq(tokens@[0]@);
            (tokens@.len() > 0 && !spec_is_comment(line@) && (m == "ADD"@ || m == "SUB"@ || m
                == "AND"@ || m == "NOR"@ || m == "XOR"@)) ==> ({
                let operands_s = tokens.deep_view().skip(1);
                if operands_s.len() < 3 {
                    r matches Err(VmError::Parser(ParserError::MissingOperand(l))) && l@ == line@
                } else if ops_of(operands_s, 3).len() != 3 {
                    r matches Err(VmError::Parser(ParserError::TooManyOperands(l))) && l@ == line@
                } else {
                    exists|op: Bits<4>|
                        #[trigger] spec_instruction_rel(tokens@[0]@, Ok::<Bits<4>, VmError>(op))
                            && spec_three_reg_rel(op, ops_of(operands_s, 3), r)
                }
            })
        }),
{
    if tokens.len() == 0 || is_comment(line) {
        return Ok(None);
    }
    let mnemonic = tokens[0].as_str();
    let ghost tdv = tokens.deep_view();
    let mut operands: Vec<String> = Vec::new();
    let mut ti: usize = 1;
    while ti < tokens.len()
        invariant
            1 <= ti <= tokens@.len(),
            tdv == tokens.deep_view(),
            operands.deep_view() =~= tdv.subrange(1, ti as int),
        decreases tokens@.len() - ti,
    {
        let ghost before = operands.deep_view();
        operands.push(tokens[ti].clone());
        proof {
            assert(operands.deep_view() =~= before.push(tdv[ti as int]));
            assert(operands.deep_view() =~= tdv.subrange(1, ti + 1));
        }
        ti += 1;
    }
    proof {
        lemma2_to64();
        lemma_mnemonic_literals();
        assert(operands.deep_view() =~= tokens.deep_view().skip(1));
    }
    let zero4 = Bits::<4>::zero();
    if eq_upper(mnemonic, "NOP") || eq_upper(mnemonic, "HLT") || eq_upper(mnemonic, "RET") {
        let ops = match extract_n_operands(0, &operands, line) {
            Ok(o) => o,
            Err(e) => {
                return Err(e);
            },
        };
        if ops.len() != 0 {
            return Err(VmError::Parser(ParserError::MissingOperand(line.to_owned())));
        }
        let op = match parse_instruction(mnemonic) {
            Ok(o) => o,
            Err(e) => {
                return Err(e);
            },
        };
        let w = word_rrr(op, zero4, zero4, zero4);
        proof {
            assert(spec_opcode_choice(tokens@[0]@, op));
        }
        Ok(Some(w))
    } else if eq_upper(mnemonic, "INC") || eq_upper(mnemonic, "DEC") {
        let ops = match extract_n_operands(1, &operands, line) {
            Ok(o) => o,
            Err(e) => {
                return Err(e);
            },
        };
        if ops.len() != 1 {
            return Err(VmError::Parser(ParserError::TooManyOperands(line.to_owned())));
        }
        let r1 = match parse_register_string(ops[0].as_str()) {
            Ok(b) => b,
            Err(e) => {
                return Err(e);
            },
        };
        let op = Bits::<4>::from_unsigned_truncated(9);
        let imm = if eq_upper(mnemonic, "INC") {
            Bits::<8>::from_unsigned_truncated(1)
        } else {
            Bits::<8>::from_unsigned_truncated(255)
        };
        let w = word_ri(op, r1, imm);
        proof {
            assert(spec_opcode_choice(tokens@[0]@, op));
        }
        Ok(Some(w))
    } else if eq_upper(mnemonic, "JMP") || eq_upper(mnemonic, "CAL") {
        let ops = match extract_n_operands(1, &operands, line) {
            Ok(o) => o,
            Err(e) => {
                return Err(e);
            },
        };
        if ops.len() != 1 {
            return Err(VmError::Parser(ParserError::TooManyOperands(line.to_owned())));
        }
        let op = match parse_instruction(mnemonic) {
            Ok(o) => o,
            Err(e) => {
                return Err(e);
            },
        };
        let addr = match parse_address(ops[0].as_str(), labels) {
            Ok(b) => b,
            Err(e) => {
                return Err(e);
            },
        };
        let w = word_ca(op, Bits::<2>::zero(), addr);
        proof {
            assert(spec_opcode_choice(tokens@[0]@, op));
        }
        Ok(Some(w))
    } else if eq_upper(mnemonic, "CMP") {
        let ops = match extract_n_operands(2, &operands, line) {
            Ok(o) => o,
            Err(e) => {
                return Err(e);
            },
        };
        if ops.len() != 2 {
            return Err(VmError::Parser(ParserError::TooManyOperands(line.to_owned())));
        }
        let r1 = match parse_register_string(ops[0].as_str()) {
            Ok(b) => b,
            Err(e) => {
                return Err(e);
            },
        };
        let r2 = match parse_register_string(ops[1].as_str()) {
            Ok(b) => b,
            Err(e) => {
                return Err(e);
            },
        };
        let op = Bits::<4>::from_unsigned_truncated(3);
        let w = word_rrr(op, r1, r2, zero4);
        proof {
            assert(spec_opcode_choice(tokens@[0]@, op));
        }
        Ok(Some(w))
    } else if eq_upper(mnemonic, "MOV") || eq_upper(mnemonic, "LSH") || eq_upper(mnemonic, "NOT") {
        let ops = match extract_n_operands(2, &operands, line) {
            Ok(o) => o,
            Err(e) => {
                return Err(e);
            },
        };
        if ops.len() != 2 {
            return Err(VmError::Parser(ParserError::TooManyOperands(line.to_owned())));
        }
        let r1 = match parse_register_string(ops[0].as_str()) {
            Ok(b) => b,
            Err(e) => {
                return Err(e);
            },
        };
        let r2 = match parse_register_string(ops[1].as_str()) {
            Ok(b) => b,
            Err(e) => {
                return Err(e);
            },
        };
        if eq_upper(mnemonic, "MOV") {
            let op = Bits::<4>::from_unsigned_truncated(2);
            let w = word_rrr(op, r1, zero4, r2);
            proof {
                assert(spec_opcode_choice(tokens@[0]@, op));
            }
            Ok(Some(w))
        } else if eq_upper(mnemonic, "NOT") {
            let op = Bits::<4>::from_unsigned_truncated(4);
            let w = word_rrr(op, r1, zero4, r2);
            proof {
                assert(spec_opcode_choice(tokens@[0]@, op));
            }
            Ok(Some(w))
        } else {
            let op = Bits::<4>::from_unsigned_truncated(2);
            let w = word_rrr(op, r1, r1, r2);
            proof {
                assert(spec_opcode_choice(tokens@[0]@, op));
            }
            Ok(Some(w))
        }
    } else if eq_upper(mnemonic, "LDI") || eq_upper(mnemonic, "ADI") {
        let ops = match extract_n_operands(2, &operands, line) {
            Ok(o) => o,
            Err(e) => {
                return Err(e);
            },
        };
        let op = match parse_instruction(mnemonic) {
            Ok(o) => o,
            Err(e) => {
                return Err(e);
            },
        };
        if ops.len() == 2 {
            let r1 = match parse_register_string(ops[0].as_str()) {
                Ok(b) => b,
                Err(e) => {
                    return Err(e);
                },
            };
            let imm = match parse_immediate(ops[1].as_str(), symbols) {
                Ok(b) => b,
                Err(e) => {
                    return Err(e);
                },
            };
            let w = word_ri(op, r1, imm);
            proof {
                assert(spec_opcode_choice(tokens@[0]@, op));
            }
            Ok(Some(w))
        } else if ops.len() == 3 {
            let r1 = match parse_register_string(ops[0].as_str()) {
                Ok(b) => b,
                Err(e) => {
                    return Err(e);
                },
            };
            let mut joined = ops[1].clone();
            joined.append(" ");
            joined.append(ops[2].as_str());
            let imm = match parse_immediate(joined.as_str(), symbols) {
                Ok(b) => b,
                Err(e) => {
                    return Err(e);
                },
            };
            let w = word_ri(op, r1, imm);
            proof {
                assert(spec_opcode_choice(tokens@[0]@, op));
            }
            Ok(Some(w))
        } else {
            Err(VmError::Parser(ParserError::MissingOperand(line.to_owned())))
        }
    } else if eq_upper(mnemonic, "BRH") {
        let ops = match extract_n_operands(2, &operands, line) {
            Ok(o) => o,
            Err(e) => {
                return Err(e);
            },
        };
        if ops.len() != 2 {
            return Err(VmError::Parser(ParserError::MissingOperand(line.to_owned())));
        }
        let cond = match parse_cond(ops[0].as_str()) {
            Ok(b) => b,
            Err(e) => {
                return Err(e);
            },
        };
        let addr = match parse_address(ops[1].as_str(), labels) {
            Ok(b) => b,
            Err(e) => {
                return Err(e);
            },
        };
        let op = match parse_instruction(mnemonic) {
            Ok(o) => o,
            Err(e) => {
                return Err(e);
            },
        };
        let w = word_ca(op, cond, addr);
        proof {
            assert(spec_opcode_choice(tokens@[0]@, op));
        }
        Ok(Some(w))
    } else if eq_upper(mnemonic, "RSH") {
        let ops = match extract_n_operands(2, &operands, line) {
            Ok(o) => o,
            Err(e) => {
                return Err(e);
            },
        };
        if ops.len() != 2 {
            return Err(VmError::Parser(ParserError::TooManyOperands(line.to_owned())));
        }
        let r1 = match parse_register_string(ops[0].as_str()) {
            Ok(b) => b,
            Err(e) => {
                return Err(e);
            },
        };
        let write = match parse_register_string(ops[1].as_str()) {
            Ok(b) => b,
            Err(e) => {
                return Err(e);
            },
        };
        let op = match parse_instruction(mnemonic) {
            Ok(o) => o,
            Err(e) => {
                return Err(e);
            },
        };
        let w = word_rrr(op, r1, zero4, write);
        proof {
            assert(spec_opcode_choice(tokens@[0]@, op));
        }
        Ok(Some(w))
    } else if eq_upper(mnemonic, "LOD") || eq_upper(mnemonic, "STR") {
        let ops = match extract_n_operands(2, &operands, line) {
            Ok(o) => o,
            Err(e) => {
                return Err(e);
            },
        };
        let op = match parse_instruction(mnemonic) {
            Ok(o) => o,
            Err(e) => {
                return Err(e);
            },
        };
        if ops.len() == 2 {
            let r1 = match parse_register_string(ops[0].as_str()) {
                Ok(b) => b,
                Err(e) => {
                    return Err(e);
                },
            };
            let r2 = match parse_register_string(ops[1].as_str()) {
                Ok(b) => b,
                Err(e) => {
                    return Err(e);
                },
            };
            let w = word_rrr(op, r1, r2, zero4);
            proof {
                assert(spec_opcode_choice(tokens@[0]@, op));
            }
            Ok(Some(w))
        } else if ops.len() == 3 {
            let r1 = match parse_register_string(ops[0].as_str()) {
                Ok(b) => b,
                Err(e) => {
                    return Err(e);
                },
            };
            let r2 = match parse_register_string(ops[1].as_str()) {
                Ok(b) => b,
                Err(e) => {
                    return Err(e);
                },
            };
            let off = match parse_offset(ops[2].as_str(), symbols) {
                Ok(b) => b,
                Err(e) => {
                    return Err(e);
                },
            };
            let w = word_rrr(op, r1, r2, off);
            proof {
                assert(spec_opcode_choice(tokens@[0]@, op));
            }
            Ok(Some(w))
        } else {
            Err(VmError::Parser(ParserError::TooManyOperands(line.to_owned())))
        }
    } else if eq_upper(mnemonic, "ADD") || eq_upper(mnemonic, "SUB") || eq_upper(mnemonic, "AND")
        || eq_upper(mnemonic, "NOR") || eq_upper(mnemonic, "XOR") {
        proof {
            lemma_family_opcode(tokens@[0]@);
        }
        let ops = match extract_n_operands(3, &operands, line) {
            Ok(o) => o,
            Err(e) => {
                return Err(e);
            },
        };
        let ghost odv3 = ops.deep_view();
        if ops.len() != 3 {
            return Err(VmError::Parser(ParserError::TooManyOperands(line.to_owned())));
        }
        let op = match parse_instruction(mnemonic) {
            Ok(o) => o,
            Err(e) => {
                return Err(e);
            },
        };
        let r1 = match parse_register_string(ops[0].as_str()) {
            Ok(b) => b,
            Err(e) => {
                proof {
                    assert(spec_register_rel(odv3[0], Err::<Bits<4>, VmError>(e)));
                    assert(spec_three_reg_rel(op, odv3, Err::<Option<Bits<16>>, VmError>(e)));
                }
                return Err(e);
            },
        };
        let r2 = match parse_register_string(ops[1].as_str()) {
            Ok(b) => b,
            Err(e) => {
                proof {
                    assert(spec_register_rel(odv3[0], Ok::<Bits<4>, VmError>(r1)));
                    assert(spec_register_rel(odv3[1], Err::<Bits<4>, VmError>(e)));
                    assert(spec_three_reg_rel(op, odv3, Err::<Option<Bits<16>>, VmError>(e)));
                }
                return Err(e);
            },
        };
        let write = match parse_register_string(ops[2].as_str()) {
            Ok(b) => b,
            Err(e) => {
                proof {
                    assert(spec_register_rel(odv3[0], Ok::<Bits<4>, VmError>(r1)));
                    assert(spec_register_rel(odv3[1], Ok::<Bits<4>, VmError>(r2)));
                    assert(spec_register_rel(odv3[2], Err::<Bits<4>, VmError>(e)));
                    assert(spec_three_reg_rel(op, odv3, Err::<Option<Bits<16>>, VmError>(e)));
                }
                return Err(e);
            },
        };
        let w = word_rrr(op, r1, r2, write);
        proof {
            assert(spec_register_rel(odv3[0], Ok::<Bits<4>, VmError>(r1)));
            assert(spec_register_rel(odv3[1], Ok::<Bits<4>, VmError>(r2)));
            assert(spec_register_rel(odv3[2], Ok::<Bits<4>, VmError>(write)));
            assert(spec_three_reg_rel(op, odv3, Ok::<Option<Bits<16>>, VmError>(Some(w))));
            assert(spec_opcode_choice(tokens@[0]@, op));
        }
        Ok(Some(w))
    } else {
        // the unknown mnemonic is reported in its uppercase reading
        Err(VmError::Parser(ParserError::InvalidInstruction(to_upper_string(mnemonic))))
    }
}

/// Whether text is one three-register instruction line: a single trimmed
/// line, neither label nor definition nor comment, whose mnemonic is of the
/// ADD, SUB, AND, NOR, XOR family with exactly three operand tokens.
pub open spec fn spec_three_reg_line(source: Seq<char>) -> bool {
    let t = trim_spec(source);
    let toks = tokens_of(t);
    &&& (forall|j: int| 0 <= j < source.len() ==> source[j] != '\n')
    &&& !spec_is_label(t)
    &&& !spec_is_definition(t)
    &&& !spec_is_comment(t)
    &&& toks.len() > 0
    &&& {
        let m = upper_seq(toks[0]);
        m == "ADD"@ || m == "SUB"@ || m == "AND"@ || m == "NOR"@ || m == "XOR"@
    }
    &&& toks.skip(1).len() >= 3
    &&& ops_of(toks.skip(1), 3).len() == 3
}

/// Assembles a whole program: the first pass resolves labels and definitions,
/// the second emits one machine word per instruction line, in the fixed field
/// format. For a source that is one three-register instruction line, the one
/// emitted word is pinned exactly: the mnemonic's opcode in the top four bits
/// and the three parsed register fields below it, or the first operand error.
pub fn parse_program(source: &str) -> (r: Result<Vec<Bits<16>>, VmError>)
    ensures
        spec_three_reg_line(source@) ==> ({
            let toks = tokens_of(trim_spec(source@));
            let ops = ops_of(toks.skip(1), 3);
            match r {
                Ok(words) => words@.len() == 1 && (exists|op: Bits<4>|
                    #[trigger] spec_instruction_rel(toks[0], Ok::<Bits<4>, VmError>(op))
                        && spec_three_reg_rel(
                        op,
                        ops,
                        Ok::<Option<Bits<16>>, VmError>(Some(words@[0])),
                    )),
                Err(e) => (exists|op: Bits<4>|
                    #[trigger] spec_instruction_rel(toks[0], Ok::<Bits<4>, VmError>(op))
                        && spec_three_reg_rel(op, ops, Err::<Option<Bits<16>>, VmError>(e))),
            }
        }),
{
    let ghost single = spec_three_reg_line(source@);
    let mut labels: Vec<(String, Bits<10>)> = Vec::new();
    let mut symbols: Vec<(String, Bits<8>)> = Vec::new();
    let content = match find_and_remove_symbols(source, &mut labels, &mut symbols) {
        Ok(c) => c,
        Err(e) => {
            return Err(e);
        },
    };
    proof {
        if single {
            assert(trim_spec(source@).len() > 0) by {
                assert(tokens_of(trim_spec(source@)).len() > 0);
            }
            assert(content.deep_view() == seq![trim_spec(source@)]);
            assert(content.deep_view().len() == 1);
            assert(content@.len() == 1);
        }
    }
    let mut words: Vec<Bits<16>> = Vec::new();
    let mut li: usize = 0;
    while li < content.len()
        invariant
            li <= content@.len(),
            single == spec_three_reg_line(source@),
            single ==> content@.len() == 1 && content.deep_view()[0] == trim_spec(source@),
            single && li == 0 ==> words@.len() == 0,
            single && li >= 1 ==> ({
                let toks = tokens_of(trim_spec(source@));
                words@.len() == 1 && (exists|op: Bits<4>|
                    #[trigger] spec_instruction_rel(toks[0], Ok::<Bits<4>, VmError>(op))
                        && spec_three_reg_rel(
                        op,
                        ops_of(toks.skip(1), 3),
                        Ok::<Option<Bits<16>>, VmError>(Some(words@[0])),
                    ))
            }),
        decreases content@.len() - li,
    {
        let line = content[li].as_str();
        let tokens = split_tokens(line);
        proof {
            if single {
                assert(line@ == trim_spec(source@));
                assert(tokens.deep_view() == tokens_of(trim_spec(source@)));
                assert(tokens@[0]@ == tokens.deep_view()[0]);
                assert(tokens.deep_view().skip(1) =~= tokens_of(trim_spec(source@)).skip(1));
            }
        }
        match assemble_line(line, &tokens, &labels, &symbols) {
            Ok(Some(word)) => {
                let ghost before = words@;
                words.push(word);
                proof {
                    assert(words@ =~= before.push(word));
                }
            },
            Ok(None) => {},
            Err(e) => {
                return Err(e);
            },
        }
        li += 1;
    }
    Ok(words)
}

} // verus!
