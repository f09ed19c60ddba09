//! Public inputs of each proof kind, laid out as 32-byte field-element blocks.
//!
//! A small integer is written little-endian into the first four bytes of its
//! block; the rest of the block is zero.
use vstd::prelude::*;

verus! {

/// Width of one field-element block.
pub const FIELD_SIZE: usize = 32;

/// The four little-endian bytes of `v`.
pub open spec fn le_bytes(v: u32) -> Seq<u8> {
    seq![
        (v % 256) as u8,
        ((v / 256) % 256) as u8,
        ((v / 65536) % 256) as u8,
        (v / 16777216) as u8,
    ]
}

/// The 32-byte block that carries `v`.
pub open spec fn field_block(v: u32) -> Seq<u8> {
    le_bytes(v) + Seq::new(28, |i: int| 0u8)
}

/// Index of a board cell in row-major order.
pub open spec fn cell_index(row: u32, col: u32) -> int {
    row * 10 + col
}

/// Public input of a board-validity proof: the commitment, verbatim.
pub open spec fn board_public_inputs(commitment: Seq<u8>) -> Seq<u8> {
    commitment
}

/// Public input of a hit proof: commitment, target cell, claimed result.
pub open spec fn hit_public_inputs(commitment: Seq<u8>, row: u32, col: u32, result: u32) -> Seq<u8> {
    commitment + field_block(cell_index(row, col) as u32) + field_block(result)
}

/// Appends the block that carries `v`.
fn push_field_block(out: &mut Vec<u8>, v: u32)
    ensures
        final(out)@ == old(out)@ + field_block(v),
{
    let start = Ghost(out@);
    let block = Ghost(field_block(v));
    out.push((v % 256) as u8);
    out.push(((v / 256) % 256) as u8);
    out.push(((v / 65536) % 256) as u8);
    out.push((v / 16777216) as u8);
    assert(out@ =~= start@ + block@.subrange(0, 4));
    let mut i: usize = 4;
    while i < FIELD_SIZE
        invariant
            4 <= i <= FIELD_SIZE,
            block@ == field_block(v),
            out@ =~= start@ + block@.subrange(0, i as int),
        decreases FIELD_SIZE - i,
    {
        out.push(0u8);
        i = i + 1;
        assert(out@ =~= start@ + block@.subrange(0, i as int));
    }
    assert(block@.subrange(0, 32) =~= block@);
}

/// Appends the bytes of `block`.
fn push_all(out: &mut Vec<u8>, block: &[u8; 32])
    ensures
        final(out)@ == old(out)@ + block@,
{
    let start = Ghost(out@);
    let mut i: usize = 0;
    while i < FIELD_SIZE
        invariant
            i <= FIELD_SIZE,
            block@.len() == FIELD_SIZE,
            out@ =~= start@ + block@.subrange(0, i as int),
        decreases FIELD_SIZE - i,
    {
        out.push(block[i]);
        i = i + 1;
        assert(out@ =~= start@ + block@.subrange(0, i as int));
    }
    assert(block@.subrange(0, 32) =~= block@);
}

/// Encodes the public input of a board-validity proof.
pub fn encode_board_inputs(commitment: &[u8; 32]) -> (r: Vec<u8>)
    ensures
        r@ == board_public_inputs(commitment@),
        r@.len() == FIELD_SIZE,
{
    let mut out: Vec<u8> = Vec::new();
    push_all(&mut out, commitment);
    assert(out@ =~= commitment@);
    out
}

/// Encodes the public inputs of a hit proof for the shot at (`row`, `col`)
/// with the claimed `result`.
pub fn encode_hit_inputs(commitment: &[u8; 32], row: u32, col: u32, result: u32) -> (r: Vec<u8>)
    requires
        cell_index(row, col) <= u32::MAX,
    ensures
        r@ == hit_public_inputs(commitment@, row, col, result),
        r@.len() == 3 * FIELD_SIZE,
{
    let mut out: Vec<u8> = Vec::new();
    push_all(&mut out, commitment);
    push_field_block(&mut out, row * 10 + col);
    push_field_block(&mut out, result);
    assert(out@ =~= commitment@ + field_block(cell_index(row, col) as u32) + field_block(result));
    out
}

} // verus!
