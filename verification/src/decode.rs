//! Field extraction from a two-byte opcode: `x` is bits 8-11, `y` bits 4-7,
//! `n` bits 0-3, `kk` bits 0-7 and `nnn` bits 0-11.

use vstd::prelude::*;

verus! {

/// Bits 8-11 of an opcode: the first register number.
pub open spec fn op_x(op: u16) -> u16 {
    (op >> 8u16) & 0xF
}

/// Bits 4-7 of an opcode: the second register number.
pub open spec fn op_y(op: u16) -> u16 {
    (op >> 4u16) & 0xF
}

/// Bits 0-3 of an opcode: the low nibble.
pub open spec fn op_n(op: u16) -> u16 {
    op & 0xF
}

/// Bits 0-7 of an opcode: the low byte.
pub open spec fn op_kk(op: u16) -> u16 {
    op & 0xFF
}

/// Bits 0-11 of an opcode: an absolute address.
pub open spec fn op_nnn(op: u16) -> u16 {
    op & 0xFFF
}

/// Bits 12-15 of an opcode: the dispatch nibble.
pub open spec fn op_hi(op: u16) -> u16 {
    op >> 12u16
}

/// For every two-byte opcode, each extracted field equals the documented
/// bit slice of the word, stated arithmetically, and lies below the bound
/// its width gives it.
pub proof fn lemma_opcode_fields(op: u16)
    by (bit_vector)
    ensures
        op_x(op) == (op / 0x100) % 0x10,
        op_y(op) == (op / 0x10) % 0x10,
        op_n(op) == op % 0x10,
        op_kk(op) == op % 0x100,
        op_nnn(op) == op % 0x1000,
        op_hi(op) == op / 0x1000,
        op_x(op) < 16,
        op_y(op) < 16,
        op_n(op) < 16,
        op_kk(op) < 256,
        op_nnn(op) < 4096,
        op_hi(op) < 16,
{
}

} // verus!
