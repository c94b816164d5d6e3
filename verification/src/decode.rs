//! The instruction-format classification scaffold: a 32-bit instruction
//! word carries a seven-bit opcode field in bits 0 to 6, and the opcode
//! classifies the word into one of six instruction formats by exact-match
//! lookup against the fixed base-ISA opcode table. Operand extraction and
//! execution semantics belong to a decoder built on top of this and are not
//! part of this crate.

use vstd::arithmetic::power2::{lemma2_to64, pow2};
use vstd::prelude::*;
use vstd::slice::slice_subrange;

use crate::bus::{bus_val, lemma_bus_val_bound, u64_from_bits, Bus};

verus! {

/// The six instruction formats of the base ISA.
#[derive(Clone, Copy, Debug, PartialEq, Eq, Structural)]
pub enum InstructionFormat {
    /// Register/register operations.
    Register,
    /// Operations with a sign-extended immediate, including loads, the
    /// register jump, fences and system instructions.
    Immediate,
    /// Stores.
    Store,
    /// Conditional branches.
    Branch,
    /// Upper-immediate operations.
    UpperImmediate,
    /// The unconditional jump.
    Jump,
}

/// The error returned for an opcode with no entry in the format table.
#[derive(Clone, Copy, Debug, PartialEq, Eq, Structural)]
pub struct UnknownOpcode;

/// The fixed base-ISA opcode table: the format of each assigned opcode,
/// and nothing for the rest.
pub open spec fn format_of(opcode: int) -> Option<InstructionFormat> {
    if opcode == 0x33 {
        Some(InstructionFormat::Register)
    } else if opcode == 0x13 || opcode == 0x03 || opcode == 0x67 || opcode == 0x0f || opcode
        == 0x73 {
        Some(InstructionFormat::Immediate)
    } else if opcode == 0x23 {
        Some(InstructionFormat::Store)
    } else if opcode == 0x63 {
        Some(InstructionFormat::Branch)
    } else if opcode == 0x37 || opcode == 0x17 {
        Some(InstructionFormat::UpperImmediate)
    } else if opcode == 0x6f {
        Some(InstructionFormat::Jump)
    } else {
        None
    }
}

/// Classifies a seven-bit opcode by exact-match lookup against the base-ISA
/// opcode table; an opcode with no table entry is not a valid instruction.
pub fn classify_opcode(opcode: u8) -> (r: Result<InstructionFormat, UnknownOpcode>)
    requires
        opcode < 128,
    ensures
        r is Ok <==> format_of(opcode as int) is Some,
        r matches Ok(f) ==> format_of(opcode as int) == Some(f),
{
    match opcode {
        0x33 => Ok(InstructionFormat::Register),
        0x13 | 0x03 | 0x67 | 0x0f | 0x73 => Ok(InstructionFormat::Immediate),
        0x23 => Ok(InstructionFormat::Store),
        0x63 => Ok(InstructionFormat::Branch),
        0x37 | 0x17 => Ok(InstructionFormat::UpperImmediate),
        0x6f => Ok(InstructionFormat::Jump),
        _ => Err(UnknownOpcode),
    }
}

/// Extracts the opcode field — the low seven bits — of a 32-bit
/// instruction word.
pub fn opcode_of(word: &Bus) -> (r: u8)
    requires
        word.bits@.len() == 32,
    ensures
        r as nat == bus_val(word.bits@.subrange(0, 7)),
        r < 128,
{
    let field = slice_subrange(word.bits.as_slice(), 0, 7);
    let val = u64_from_bits(field);
    proof {
        lemma_bus_val_bound(word.bits@.subrange(0, 7));
        lemma2_to64();
        assert(pow2(7) == 128);
    }
    val as u8
}

/// Classifies a 32-bit instruction word by its opcode field.
pub fn classify_word(word: &Bus) -> (r: Result<InstructionFormat, UnknownOpcode>)
    requires
        word.bits@.len() == 32,
    ensures
        r is Ok <==> format_of(bus_val(word.bits@.subrange(0, 7)) as int) is Some,
        r matches Ok(f) ==> format_of(bus_val(word.bits@.subrange(0, 7)) as int) == Some(f),
{
    let opcode = opcode_of(word);
    classify_opcode(opcode)
}

} // verus!
