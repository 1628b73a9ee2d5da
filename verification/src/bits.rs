//! Conversions between bytes, words and their signed readings.

use vstd::prelude::*;

verus! {

/// The signed 16-bit value of a byte read as a signed 8-bit number.
pub open spec fn sign_extend(byte: u8) -> i16 {
    if byte < 128 {
        byte as i16
    } else {
        (byte - 256) as i16
    }
}

/// The signed reading of a 16-bit word.
pub open spec fn to_signed(word: u16) -> i16 {
    if word < 32768 {
        word as i16
    } else {
        (word - 65536) as i16
    }
}

/// The 16-bit word with the given signed reading.
pub open spec fn to_unsigned(value: i16) -> u16 {
    if value >= 0 {
        value as u16
    } else {
        (value + 65536) as u16
    }
}

/// The 16-bit word that two bytes hold, low byte first.
pub open spec fn word_of(low: u8, high: u8) -> u16 {
    (low + 256 * high) as u16
}

/// A byte read as a signed 8-bit number, widened to 16 bits
pub fn sign_extend_byte(byte: u8) -> (res: i16)
    ensures
        res == sign_extend(byte),
{
    if byte < 128 {
        byte as i16
    } else {
        (byte as i16) - 256
    }
}

/// The signed reading of a word
pub fn word_to_signed(word: u16) -> (res: i16)
    ensures
        res == to_signed(word),
{
    if word < 32768 {
        word as i16
    } else {
        ((word as i32) - 65536) as i16
    }
}

/// The word with the given signed reading
pub fn signed_to_word(value: i16) -> (res: u16)
    ensures
        res == to_unsigned(value),
{
    if value >= 0 {
        value as u16
    } else {
        ((value as i32) + 65536) as u16
    }
}

/// The word that two bytes hold, low byte first
pub fn make_word(low: u8, high: u8) -> (res: u16)
    ensures
        res == word_of(low, high),
{
    (low as u16) + 256 * (high as u16)
}

/// Reading a word as signed and back gives the word.
pub proof fn lemma_signed_round_trip(word: u16)
    ensures
        to_unsigned(to_signed(word)) == word,
{
}

/// Reading a signed value as a word and back gives the value.
pub proof fn lemma_unsigned_round_trip(value: i16)
    ensures
        to_signed(to_unsigned(value)) == value,
{
}

} // verus!
