//! The hexadecimal keypad and the keyboard layout that front ends map onto
//! it.
//!
//! ```text
//! keyboard    keypad
//! 1 2 3 4     1 2 3 C
//! q w e r     4 5 6 D
//! a s d f     7 8 9 E
//! z x c v     A 0 B F
//! ```

use vstd::prelude::*;
use crate::model::NUM_KEYS;

verus! {

/// The keypad key that a character of the keyboard stands for, if it stands
/// for one.
pub open spec fn key_of_char(c: char) -> Option<usize> {
    if c == '1' {
        Some(0x1)
    } else if c == '2' {
        Some(0x2)
    } else if c == '3' {
        Some(0x3)
    } else if c == '4' {
        Some(0xC)
    } else if c == 'q' {
        Some(0x4)
    } else if c == 'w' {
        Some(0x5)
    } else if c == 'e' {
        Some(0x6)
    } else if c == 'r' {
        Some(0xD)
    } else if c == 'a' {
        Some(0x7)
    } else if c == 's' {
        Some(0x8)
    } else if c == 'd' {
        Some(0x9)
    } else if c == 'f' {
        Some(0xE)
    } else if c == 'z' {
        Some(0xA)
    } else if c == 'x' {
        Some(0x0)
    } else if c == 'c' {
        Some(0xB)
    } else if c == 'v' {
        Some(0xF)
    } else {
        None
    }
}

/// The character of the keyboard that stands for a keypad key.
pub open spec fn char_of_key(key: int) -> char {
    if key == 0x0 {
        'x'
    } else if key == 0x1 {
        '1'
    } else if key == 0x2 {
        '2'
    } else if key == 0x3 {
        '3'
    } else if key == 0x4 {
        'q'
    } else if key == 0x5 {
        'w'
    } else if key == 0x6 {
        'e'
    } else if key == 0x7 {
        'a'
    } else if key == 0x8 {
        's'
    } else if key == 0x9 {
        'd'
    } else if key == 0xA {
        'z'
    } else if key == 0xB {
        'c'
    } else if key == 0xC {
        '4'
    } else if key == 0xD {
        'r'
    } else if key == 0xE {
        'f'
    } else {
        'v'
    }
}

/// Maps a character of the keyboard to the keypad key it stands for.
///
/// The key, where there is one, is an index that [`crate::Emu::keypress`]
/// accepts.
pub fn key_to_btn(c: char) -> (key: Option<usize>)
    ensures
        key == key_of_char(c),
        key matches Some(k) ==> k < NUM_KEYS,
{
    match c {
        '1' => Some(0x1),
        '2' => Some(0x2),
        '3' => Some(0x3),
        '4' => Some(0xC),
        'q' => Some(0x4),
        'w' => Some(0x5),
        'e' => Some(0x6),
        'r' => Some(0xD),
        'a' => Some(0x7),
        's' => Some(0x8),
        'd' => Some(0x9),
        'f' => Some(0xE),
        'z' => Some(0xA),
        'x' => Some(0x0),
        'c' => Some(0xB),
        'v' => Some(0xF),
        _ => None,
    }
}

/// The layout reaches every key of the keypad, each by one character only.
pub proof fn lemma_layout_is_one_to_one(c: char, key: int)
    requires
        0 <= key < NUM_KEYS,
    ensures
        key_of_char(char_of_key(key)) == Some(key as usize),
        key_of_char(c) == Some(key as usize) ==> c == char_of_key(key),
        key_of_char(c) matches Some(k) ==> k < NUM_KEYS,
{
}

} // verus!
