//! The keys from which the hash of a position is made.
//!
//! The hash of a position is the XOR of one key for each piece on its
//! square, one for each side's castling rights, and one more when Black is
//! to move. The keys are the outputs of a 64-bit mixing function on the
//! numbers 0, 1, 2 and so on, so they need no table.

use crate::chess_types::CastleRights;
use crate::chess_types::Color;
use crate::chess_types::Piece;
use crate::chess_types::Square;
use vstd::prelude::*;

verus! {

/// The maker of the keys.
pub struct Zobrist;

impl Zobrist {
    /// A bijective scrambling of 64 bits: add a constant, then twice XOR
    /// with a shifted copy and multiply, then XOR with a shifted copy.
    pub open spec fn spec_mix(x: u64) -> u64 {
        let a = x.wrapping_add(0x9e37_79b9_7f4a_7c15);
        let b = (a ^ (a >> 30)).wrapping_mul(0xbf58_476d_1ce4_e5b9);
        let c = (b ^ (b >> 27)).wrapping_mul(0x94d0_49bb_1331_11eb);
        c ^ (c >> 31)
    }

    /// The key of a piece of a colour on a square.
    pub open spec fn spec_piece(piece: Piece, square: u8, color: Color) -> u64 {
        Zobrist::spec_mix(
            ((color.spec_to_index() * 6 + piece.spec_to_index()) * 64 + square + 1) as u64,
        )
    }

    /// The key of a side's castling rights.
    pub open spec fn spec_castles(castle_rights: CastleRights, color: Color) -> u64 {
        Zobrist::spec_mix((769 + color.spec_to_index() * 4 + castle_rights.spec_to_index()) as u64)
    }

    /// The key that is part of the hash when Black is to move.
    pub open spec fn spec_color() -> u64 {
        Zobrist::spec_mix(0)
    }

    fn mix(x: u64) -> (r: u64)
        ensures
            r == Zobrist::spec_mix(x),
    {
        let a = x.wrapping_add(0x9e37_79b9_7f4a_7c15);
        let b = (a ^ (a >> 30)).wrapping_mul(0xbf58_476d_1ce4_e5b9);
        let c = (b ^ (b >> 27)).wrapping_mul(0x94d0_49bb_1331_11eb);
        c ^ (c >> 31)
    }

    pub fn piece(piece: Piece, square: Square, color: Color) -> (r: u64)
        ensures
            r == Zobrist::spec_piece(piece, square.idx(), color),
    {
        let index: usize = (color.to_index() * 6 + piece.to_index()) * 64
            + square.to_index() as usize + 1;
        Zobrist::mix(index as u64)
    }

    #[verifier::when_used_as_spec(spec_castles)]
    pub fn castles(castle_rights: CastleRights, color: Color) -> (r: u64)
        ensures
            r == Zobrist::spec_castles(castle_rights, color),
    {
        let index: usize = 769 + color.to_index() * 4 + castle_rights.to_index();
        Zobrist::mix(index as u64)
    }

    #[verifier::when_used_as_spec(spec_color)]
    pub fn color() -> (r: u64)
        ensures
            r == Zobrist::spec_color(),
    {
        Zobrist::mix(0)
    }
}

} // verus!
