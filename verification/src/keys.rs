//! Composite table keys: two 32-bit components packed into one 64-bit integer.

use vstd::prelude::*;

verus! {

/// The key made of `high` in the upper 32 bits and `low` in the lower 32 bits.
pub open spec fn composite(low: u32, high: u32) -> u64 {
    ((high as u64) << 32) | (low as u64)
}

/// Packs two 32-bit components into one 64-bit key.
pub fn composite_key(low: u32, high: u32) -> (key: u64)
    ensures
        key == composite(low, high),
{
    ((high as u64) << 32) | (low as u64)
}

/// Distinct component pairs never share a key.
pub proof fn lemma_composite_injective(low1: u32, high1: u32, low2: u32, high2: u32)
    requires
        composite(low1, high1) == composite(low2, high2),
    ensures
        low1 == low2,
        high1 == high2,
{
    assert(((high1 as u64) << 32) | (low1 as u64) == ((high2 as u64) << 32) | (low2 as u64) ==> low1
        == low2 && high1 == high2) by (bit_vector);
}

/// The key of an instruction: its opcode below, its namespace above.
pub open spec fn instruction_key(opcode: u32, namespace: u32) -> u64 {
    composite(opcode, namespace)
}

/// The key of an enumerant's display name: its literal below, its kind above.
pub open spec fn operand_name_key(kind: u32, literal: u32) -> u64 {
    composite(literal, kind)
}

/// The key of an enumerant's parameters: its kind below, its literal above.
pub open spec fn operand_parameter_key(kind: u32, literal: u32) -> u64 {
    composite(kind, literal)
}

/// The key of a kind's bases: the kind alone.
pub open spec fn operand_base_key(kind: u32) -> u64 {
    kind as u64
}

/// Builds the key of an instruction.
pub fn make_instruction_key(opcode: u32, namespace: u32) -> (key: u64)
    ensures
        key == instruction_key(opcode, namespace),
{
    composite_key(opcode, namespace)
}

/// Builds the key of an enumerant's display name.
pub fn make_operand_name_key(kind: u32, literal: u32) -> (key: u64)
    ensures
        key == operand_name_key(kind, literal),
{
    composite_key(literal, kind)
}

/// Builds the key of an enumerant's parameters.
pub fn make_operand_parameter_key(kind: u32, literal: u32) -> (key: u64)
    ensures
        key == operand_parameter_key(kind, literal),
{
    composite_key(kind, literal)
}

/// Builds the key of a kind's bases.
pub fn make_operand_base_key(kind: u32) -> (key: u64)
    ensures
        key == operand_base_key(kind),
{
    kind as u64
}

} // verus!
