//! The instruction decoder: partitions a byte buffer into two-byte units and
//! renders one assembly line per unit after a `bits 16` header.

use vstd::prelude::*;
use crate::registers::{
    byte_to_register,
    lemma_register_name_wf,
    spec_register_name,
};

verus! {

/// A buffer that cannot be partitioned into two-byte units is rejected
/// before any output is produced.
#[derive(Clone, Copy, Debug, PartialEq, Eq)]
pub enum DecodeError {
    /// The buffer holds no bytes at all.
    EmptyBuffer,
    /// The buffer's length is not a multiple of the two-byte unit size.
    OddLength,
}

/// The operand-width flag: bit 0 of the opcode byte. False selects byte
/// registers, true selects word registers.
pub open spec fn spec_w(b0: u8) -> bool {
    b0 & 1 == 1
}

/// The direction flag: bit 1 of the opcode byte. It is extracted from every
/// unit but never consulted when ordering the rendered operands.
pub open spec fn spec_d(b0: u8) -> bool {
    b0 & 2 == 2
}

/// The mnemonic for an opcode byte: `mov` when the top 6 bits match the
/// register-to-register MOV pattern, `UNKNOWN` otherwise.
pub open spec fn spec_mnemonic(b0: u8) -> Seq<char> {
    if b0 >> 2 == 0b100010 {
        "mov"@
    } else {
        "UNKNOWN"@
    }
}

/// The first-operand register selector: the low 3 bits of the operand byte.
pub open spec fn spec_first_selector(b1: u8) -> u8 {
    b1 & 0b111
}

/// The second-operand register selector: bits 3 to 5 of the operand byte.
pub open spec fn spec_second_selector(b1: u8) -> u8 {
    (b1 & 0b111111) >> 3
}

/// The output line for one two-byte unit, including its leading newline:
/// `"\n<mnemonic> <first-operand>, <second-operand>"`.
pub open spec fn spec_unit_line(b0: u8, b1: u8) -> Seq<char> {
    "\n"@ + spec_mnemonic(b0) + " "@ + spec_register_name(spec_first_selector(b1), spec_w(b0))
        + ", "@ + spec_register_name(spec_second_selector(b1), spec_w(b0))
}

/// The concatenated output lines for a buffer, one line per two-byte unit,
/// in stream order.
pub open spec fn spec_decode_body(buf: Seq<u8>) -> Seq<char>
    decreases buf.len(),
{
    if buf.len() < 2 {
        Seq::empty()
    } else {
        spec_unit_line(buf[0], buf[1]) + spec_decode_body(buf.skip(2))
    }
}

/// The full decoder output for a valid buffer: the `bits 16` header line
/// followed by one line per unit.
pub open spec fn spec_decode_output(buf: Seq<u8>) -> Seq<char> {
    "bits 16\n"@ + spec_decode_body(buf)
}

/// How often a character occurs in a sequence.
pub open spec fn count_char(s: Seq<char>, c: char) -> nat
    decreases s.len(),
{
    if s.len() == 0 {
        0
    } else {
        (if s[0] == c {
            1nat
        } else {
            0nat
        }) + count_char(s.skip(1), c)
    }
}

/// Character counts add up over concatenation.
pub proof fn lemma_count_char_add(a: Seq<char>, b: Seq<char>, c: char)
    ensures
        count_char(a + b, c) == count_char(a, c) + count_char(b, c),
    decreases a.len(),
{
    if a.len() == 0 {
        assert(a + b =~= b);
    } else {
        lemma_count_char_add(a.skip(1), b, c);
        assert((a + b).skip(1) =~= a.skip(1) + b);
    }
}

/// A sequence in which a character never occurs counts it zero times.
pub proof fn lemma_count_char_zero(s: Seq<char>, c: char)
    requires
        forall|i: int| 0 <= i < s.len() ==> s[i] != c,
    ensures
        count_char(s, c) == 0,
    decreases s.len(),
{
    if s.len() > 0 {
        assert(forall|i: int| 0 <= i < s.skip(1).len() ==> s.skip(1)[i] == s[i + 1]);
        lemma_count_char_zero(s.skip(1), c);
    }
}

/// Each unit's output line holds exactly one newline: the one that
/// separates it from the line before it.
pub proof fn lemma_unit_line_newlines(b0: u8, b1: u8)
    ensures
        count_char(spec_unit_line(b0, b1), '\n') == 1,
{
    reveal_strlit("\n");
    reveal_strlit(" ");
    reveal_strlit(", ");
    reveal_strlit("mov");
    reveal_strlit("UNKNOWN");
    let nl = "\n"@;
    let sp = " "@;
    let cs = ", "@;
    let mn = spec_mnemonic(b0);
    let r1 = spec_register_name(spec_first_selector(b1), spec_w(b0));
    let r2 = spec_register_name(spec_second_selector(b1), spec_w(b0));
    assert(count_char(nl.skip(1), '\n') == 0) by {
        assert(nl.skip(1).len() == 0);
    }
    assert(count_char(nl, '\n') == 1);
    lemma_count_char_zero(sp, '\n');
    lemma_count_char_zero(cs, '\n');
    lemma_count_char_zero(mn, '\n');
    lemma_register_name_wf(spec_first_selector(b1), spec_w(b0));
    lemma_register_name_wf(spec_second_selector(b1), spec_w(b0));
    lemma_count_char_zero(r1, '\n');
    lemma_count_char_zero(r2, '\n');
    lemma_count_char_add(nl, mn + sp + r1 + cs + r2, '\n');
    lemma_count_char_add(mn, sp + r1 + cs + r2, '\n');
    lemma_count_char_add(sp, r1 + cs + r2, '\n');
    lemma_count_char_add(r1, cs + r2, '\n');
    lemma_count_char_add(cs, r2, '\n');
    assert(spec_unit_line(b0, b1) =~= nl + (mn + sp + r1 + cs + r2));
    assert(mn + sp + r1 + cs + r2 =~= mn + (sp + r1 + cs + r2));
    assert(sp + r1 + cs + r2 =~= sp + (r1 + cs + r2));
    assert(r1 + cs + r2 =~= r1 + (cs + r2));
}

/// Units are decoded independently: the output lines for a concatenation of
/// two even-length buffers are the lines for the first followed by the lines
/// for the second. In particular a unit with an unrecognized opcode affects
/// only its own line; every later unit still decodes exactly as it would on
/// its own.
pub proof fn lemma_decode_body_append(a: Seq<u8>, b: Seq<u8>)
    requires
        a.len() % 2 == 0,
    ensures
        spec_decode_body(a + b) == spec_decode_body(a) + spec_decode_body(b),
    decreases a.len(),
{
    if a.len() == 0 {
        assert(a + b =~= b);
        assert(spec_decode_body(a) + spec_decode_body(b) =~= spec_decode_body(b));
    } else {
        lemma_decode_body_append(a.skip(2), b);
        assert((a + b).skip(2) =~= a.skip(2) + b);
        assert((a + b)[0] == a[0] && (a + b)[1] == a[1]);
        assert(spec_unit_line(a[0], a[1]) + (spec_decode_body(a.skip(2)) + spec_decode_body(b))
            =~= (spec_unit_line(a[0], a[1]) + spec_decode_body(a.skip(2))) + spec_decode_body(b));
    }
}

/// The output lines for an even-length buffer hold one newline per unit.
pub proof fn lemma_decode_body_newlines(buf: Seq<u8>)
    requires
        buf.len() % 2 == 0,
    ensures
        count_char(spec_decode_body(buf), '\n') == buf.len() / 2,
    decreases buf.len(),
{
    if buf.len() == 0 {
        assert(count_char(spec_decode_body(buf), '\n') == 0);
    } else {
        lemma_unit_line_newlines(buf[0], buf[1]);
        lemma_decode_body_newlines(buf.skip(2));
        lemma_count_char_add(spec_unit_line(buf[0], buf[1]), spec_decode_body(buf.skip(2)), '\n');
    }
}

/// The decoder's output for a valid buffer holds exactly `1 + len / 2`
/// newlines: one ending the header line and one starting each unit's line.
pub proof fn lemma_decode_output_line_count(buf: Seq<u8>)
    requires
        buf.len() > 0,
        buf.len() % 2 == 0,
    ensures
        count_char(spec_decode_output(buf), '\n') == 1 + buf.len() / 2,
{
    reveal_strlit("bits 16\n");
    reveal_strlit("bits 16");
    reveal_strlit("\n");
    let head = "bits 16"@;
    let nl = "\n"@;
    assert("bits 16\n"@ =~= head + nl);
    lemma_count_char_zero(head, '\n');
    assert(count_char(nl.skip(1), '\n') == 0) by {
        assert(nl.skip(1).len() == 0);
    }
    assert(count_char(nl, '\n') == 1);
    lemma_count_char_add(head, nl, '\n');
    lemma_decode_body_newlines(buf);
    lemma_count_char_add("bits 16\n"@, spec_decode_body(buf), '\n');
}

/// Decoding is deterministic: the output is a function of the buffer alone,
/// so any two results for the same buffer are identical.
pub proof fn lemma_decode_deterministic(buf: Seq<u8>, r1: Seq<char>, r2: Seq<char>)
    requires
        r1 == spec_decode_output(buf),
        r2 == spec_decode_output(buf),
    ensures
        r1 == r2,
{
}

/// The mnemonic for one opcode byte: `mov` exactly when the top 6 bits match
/// the register-to-register MOV pattern, `UNKNOWN` otherwise.
pub fn decode_instruction(instruction: u8) -> (r: String)
    ensures
        r@ == spec_mnemonic(instruction),
{
    match instruction >> 2 == 0b100010 {
        true => "mov".to_owned(),
        false => "UNKNOWN".to_owned(),
    }
}

/// The direction flag, bit 1 of the opcode byte. It is extracted but never
/// applied: operand order in the output does not depend on it.
pub fn get_d_value(data: u8) -> (r: bool)
    ensures
        r == spec_d(data),
{
    let r = ((data & 0b0000_0010) >> 1) > 0;
    proof {
        assert((((data & 2) >> 1) > 0) == (data & 2 == 2)) by (bit_vector);
    }
    r
}

/// The operand-width flag, bit 0 of the opcode byte.
pub fn get_w_value(data: u8) -> (r: bool)
    ensures
        r == spec_w(data),
{
    let r = (data & 0b0000_0001) > 0;
    proof {
        assert(((data & 1) > 0) == (data & 1 == 1)) by (bit_vector);
    }
    r
}

/// The addressing-mode field, the top 2 bits of the operand byte. It is
/// extracted but not interpreted: both operands are always treated as
/// register selectors.
pub fn get_mod(data: u8) -> (r: u8)
    ensures
        r == data >> 6,
        r < 4,
{
    proof {
        assert(data >> 6 < 4) by (bit_vector);
    }
    data >> 6
}

/// The name of the first-operand register: the low 3 bits of the operand
/// byte, resolved at the unit's operand width.
pub fn decode_first_register(data: u8, w: bool) -> (r: String)
    ensures
        r@ == spec_register_name(spec_first_selector(data), w),
{
    proof {
        assert(data & 0b111 < 8) by (bit_vector);
    }
    byte_to_register(data & 0b00000111, w)
}

/// The name of the second-operand register: bits 3 to 5 of the operand
/// byte, resolved at the unit's operand width.
pub fn decode_second_register(data: u8, w: bool) -> (r: String)
    ensures
        r@ == spec_register_name(spec_second_selector(data), w),
{
    let remove_mod = data & 0b00111111;
    proof {
        assert((data & 0b111111) >> 3 < 8) by (bit_vector);
    }
    byte_to_register(remove_mod >> 3, w)
}

/// Decode a raw byte buffer into a textual disassembly listing.
///
/// A buffer that is empty or of odd length cannot be partitioned into
/// two-byte units and is rejected before any output is produced; every
/// other buffer decodes to the `bits 16` header followed by one line per
/// unit, in stream order.
#[verifier::rlimit(50)]
pub fn decode_buffer(buffer: &[u8]) -> (r: Result<String, DecodeError>)
    ensures
        buffer@.len() == 0 ==> r == Err::<String, DecodeError>(DecodeError::EmptyBuffer),
        buffer@.len() > 0 && buffer@.len() % 2 != 0 ==> r == Err::<String, DecodeError>(
            DecodeError::OddLength,
        ),
        buffer@.len() > 0 && buffer@.len() % 2 == 0 ==> r is Ok && r->Ok_0@ == spec_decode_output(
            buffer@,
        ),
{
    if buffer.len() == 0 {
        return Err(DecodeError::EmptyBuffer);
    }
    if buffer.len() % 2 != 0 {
        return Err(DecodeError::OddLength);
    }
    let mut result: String = "bits 16\n".to_owned();
    let mut i: usize = 0;
    while i < buffer.len()
        invariant
            i <= buffer@.len(),
            i % 2 == 0,
            buffer@.len() % 2 == 0,
            result@ == "bits 16\n"@ + spec_decode_body(buffer@.take(i as int)),
        decreases buffer@.len() - i,
    {
        assert(i + 2 <= buffer@.len());
        let b0 = buffer[i];
        let b1 = buffer[i + 1];
        let instruction = decode_instruction(b0);
        let w = get_w_value(b0);
        let _d = get_d_value(b0);
        let _m: u8 = get_mod(b1);
        let first_register = decode_first_register(b1, w);
        let second_register = decode_second_register(b1, w);
        result.append("\n");
        result.append(instruction.as_str());
        result.append(" ");
        result.append(first_register.as_str());
        result.append(", ");
        result.append(second_register.as_str());
        proof {
            let pre = buffer@.take(i as int);
            let unit = seq![b0, b1];
            assert(buffer@.take(i + 2 as int) =~= pre + unit);
            lemma_decode_body_append(pre, unit);
            assert(unit.len() == 2 && unit[0] == b0 && unit[1] == b1);
            assert(unit.skip(2) =~= Seq::<u8>::empty());
            assert(spec_decode_body(unit.skip(2)) == Seq::<char>::empty());
            assert(spec_decode_body(unit) == spec_unit_line(b0, b1) + Seq::<char>::empty());
            assert(spec_unit_line(b0, b1) + Seq::<char>::empty() =~= spec_unit_line(b0, b1));
            assert(result@ =~= "bits 16\n"@ + spec_decode_body(buffer@.take(i + 2 as int)));
        }
        i = i + 2;
    }
    proof {
        assert(buffer@.take(buffer@.len() as int) =~= buffer@);
    }
    Ok(result)
}


} // verus!
