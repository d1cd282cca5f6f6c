//! Packing and splitting of 16-bit words into (high, low) byte pairs.

use vstd::prelude::*;

verus! {

/// The 16-bit word formed by a high and a low byte.
pub open spec fn word_of_bytes(high: u8, low: u8) -> u16 {
    (high * 0x100 + low) as u16
}

/// The high byte of a 16-bit word.
pub open spec fn high_byte(v: u16) -> u8 {
    (v / 0x100) as u8
}

/// The low byte of a 16-bit word.
pub open spec fn low_byte(v: u16) -> u8 {
    (v % 0x100) as u8
}

/// Addition of two bytes, wrapping modulo 256.
pub open spec fn wrap_add8(x: u8, d: u8) -> u8 {
    if x + d > 0xFF {
        (x + d - 0x100) as u8
    } else {
        (x + d) as u8
    }
}

/// Subtraction of two bytes, wrapping modulo 256.
pub open spec fn wrap_sub8(x: u8, d: u8) -> u8 {
    if x - d < 0 {
        (x - d + 0x100) as u8
    } else {
        (x - d) as u8
    }
}

/// Addition of two 16-bit words, wrapping modulo 65536.
pub open spec fn wrap_add16(x: u16, d: u16) -> u16 {
    if x + d > 0xFFFF {
        (x + d - 0x10000) as u16
    } else {
        (x + d) as u16
    }
}

/// Subtraction of two 16-bit words, wrapping modulo 65536.
pub open spec fn wrap_sub16(x: u16, d: u16) -> u16 {
    if x - d < 0 {
        (x - d + 0x10000) as u16
    } else {
        (x - d) as u16
    }
}

pub struct BinUtils {}

impl BinUtils {
    /// Combine a high and a low byte into one 16-bit word.
    pub fn u16_from_u8s(high: u8, low: u8) -> (r: u16)
        ensures
            r == word_of_bytes(high, low),
            high_byte(r) == high,
            low_byte(r) == low,
    {
        let r: u16 = (low as u16) | ((high as u16) << 8);
        proof {
            assert(r == high * 0x100 + low) by (bit_vector)
                requires r == (low as u16) | ((high as u16) << 8);
        }
        r
    }

    /// Split a 16-bit word into its (high, low) byte pair.
    pub fn u8s_from_u16(v: u16) -> (r: (u8, u8))
        ensures
            r.0 == high_byte(v),
            r.1 == low_byte(v),
            v == word_of_bytes(r.0, r.1),
    {
        let high: u8 = (v >> 8) as u8;
        let low: u8 = (v & 0xFF) as u8;
        proof {
            assert(high == v / 0x100 && low == v % 0x100) by (bit_vector)
                requires high == (v >> 8) as u8 && low == (v & 0xFF) as u8;
        }
        (high, low)
    }
}

/// Pairing law: splitting a word and recombining the bytes gives the word
/// back, and combining two bytes and splitting gives the bytes back, so
/// the pairing is a bijection on the 16-bit space.
pub proof fn lemma_word_byte_round_trip(high: u8, low: u8, v: u16)
    ensures
        word_of_bytes(high_byte(v), low_byte(v)) == v,
        high_byte(word_of_bytes(high, low)) == high,
        low_byte(word_of_bytes(high, low)) == low,
{
}

} // verus!
