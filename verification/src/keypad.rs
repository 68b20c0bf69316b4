//! The keyboard layout of the sixteen-key hexadecimal keypad:
//!
//! ```text
//! keypad      keyboard
//! 1 2 3 C     1 2 3 4
//! 4 5 6 D     q w e r
//! 7 8 9 E     a s d f
//! A 0 B F     z x c v
//! ```

use vstd::prelude::*;

verus! {

/// The keyboard character that stands for keypad button `button`.
pub open spec fn button_char(button: int) -> char {
    if button == 0x0 {
        'x'
    } else if button == 0x1 {
        '1'
    } else if button == 0x2 {
        '2'
    } else if button == 0x3 {
        '3'
    } else if button == 0x4 {
        'q'
    } else if button == 0x5 {
        'w'
    } else if button == 0x6 {
        'e'
    } else if button == 0x7 {
        'a'
    } else if button == 0x8 {
        's'
    } else if button == 0x9 {
        'd'
    } else if button == 0xA {
        'z'
    } else if button == 0xB {
        'c'
    } else if button == 0xC {
        '4'
    } else if button == 0xD {
        'r'
    } else if button == 0xE {
        'f'
    } else {
        'v'
    }
}

/// The keypad button that a key name stands for: the name is one of the
/// sixteen one-character names of the layout.
pub open spec fn key_button(key: Seq<char>) -> Option<usize> {
    if key.len() == 1 && exists|b: int| 0 <= b < 16 && #[trigger] button_char(b) == key[0] {
        Some((choose|b: int| 0 <= b < 16 && #[trigger] button_char(b) == key[0]) as usize)
    } else {
        None
    }
}

/// The keypad button for the name of a keyboard key (as a browser reports
/// it), or `None` for a key that is not on the keypad.
pub fn key2btn(key: &str) -> (button: Option<usize>)
    ensures
        button == key_button(key@),
{
    if key.unicode_len() != 1 {
        return None;
    }
    let c: char = key.get_char(0);
    let button: Option<usize> = match c {
        '1' => Some(0x1),
        '2' => Some(0x2),
        '3' => Some(0x3),
        '4' => Some(0xC),
        'q' => Some(0x4),
        'w' => Some(0x5),
        'e' => Some(0x6),
        'r' => Some(0xD),
        'a' => Some(0x7),
        's' => Some(0x8),
        'd' => Some(0x9),
        'f' => Some(0xE),
        'z' => Some(0xA),
        'x' => Some(0x0),
        'c' => Some(0xB),
        'v' => Some(0xF),
        _ => None,
    };
    proof {
        lemma_button_chars_distinct();
        match button {
            Some(b) => {
                assert(button_char(b as int) == c);
            },
            None => {
                assert forall|b: int| 0 <= b < 16 implies #[trigger] button_char(b) != c by {
                }
            },
        }
    }
    button
}

/// The keyboard character for keypad button `button`, or `None` past the
/// sixteen buttons.
pub fn btn_to_char(button: usize) -> (c: Option<char>)
    ensures
        button < 16 ==> c == Some(button_char(button as int)),
        button >= 16 ==> c is None,
{
    match button {
        0x1 => Some('1'),
        0x2 => Some('2'),
        0x3 => Some('3'),
        0xC => Some('4'),
        0x4 => Some('q'),
        0x5 => Some('w'),
        0x6 => Some('e'),
        0xD => Some('r'),
        0x7 => Some('a'),
        0x8 => Some('s'),
        0x9 => Some('d'),
        0xE => Some('f'),
        0xA => Some('z'),
        0x0 => Some('x'),
        0xB => Some('c'),
        0xF => Some('v'),
        _ => None,
    }
}

/// Different buttons have different characters.
proof fn lemma_button_chars_distinct()
    ensures
        forall|a: int, b: int|
            0 <= a < 16 && 0 <= b < 16 && #[trigger] button_char(a) == #[trigger] button_char(b)
                ==> a == b,
{
}

/// The layout is one to one: the name of the key for a button stands for
/// that button, and a name that stands for a button is the name of that
/// button's key.
pub proof fn lemma_layout_round_trip(button: int, key: Seq<char>)
    ensures
        0 <= button < 16 ==> key_button(seq![button_char(button)]) == Some(button as usize),
        key_button(key) matches Some(b) ==> b < 16 && key == seq![button_char(b as int)],
{
    lemma_button_chars_distinct();
    if 0 <= button < 16 {
        assert(seq![button_char(button)][0] == button_char(button));
    }
    if key_button(key) is Some {
        assert(key =~= seq![key[0]]);
    }
}

/// The keypad layout, key by key, as the module documentation draws it:
/// 1 2 3 C / 4 5 6 D / 7 8 9 E / A 0 B F on the keys 1 2 3 4 / q w e r /
/// a s d f / z x c v. Every other name stands for no button.
pub proof fn lemma_keypad_table()
    ensures
        key_button(seq!['1']) == Some(0x1usize),
        key_button(seq!['2']) == Some(0x2usize),
        key_button(seq!['3']) == Some(0x3usize),
        key_button(seq!['4']) == Some(0xCusize),
        key_button(seq!['q']) == Some(0x4usize),
        key_button(seq!['w']) == Some(0x5usize),
        key_button(seq!['e']) == Some(0x6usize),
        key_button(seq!['r']) == Some(0xDusize),
        key_button(seq!['a']) == Some(0x7usize),
        key_button(seq!['s']) == Some(0x8usize),
        key_button(seq!['d']) == Some(0x9usize),
        key_button(seq!['f']) == Some(0xEusize),
        key_button(seq!['z']) == Some(0xAusize),
        key_button(seq!['x']) == Some(0x0usize),
        key_button(seq!['c']) == Some(0xBusize),
        key_button(seq!['v']) == Some(0xFusize),
        forall|key: Seq<char>| key.len() != 1 ==> key_button(key) is None,
        forall|c: char| c != '1' && c != '2' && c != '3' && c != '4' && c != 'q' && c != 'w' && c != 'e' && c != 'r' && c != 'a' && c != 's' && c != 'd' && c != 'f' && c != 'z' && c != 'x' && c != 'c' && c != 'v' ==> key_button(seq![c]) is None,
{
    lemma_layout_round_trip(0, seq![]);
    lemma_layout_round_trip(1, seq![]);
    lemma_layout_round_trip(2, seq![]);
    lemma_layout_round_trip(3, seq![]);
    lemma_layout_round_trip(4, seq![]);
    lemma_layout_round_trip(5, seq![]);
    lemma_layout_round_trip(6, seq![]);
    lemma_layout_round_trip(7, seq![]);
    lemma_layout_round_trip(8, seq![]);
    lemma_layout_round_trip(9, seq![]);
    lemma_layout_round_trip(10, seq![]);
    lemma_layout_round_trip(11, seq![]);
    lemma_layout_round_trip(12, seq![]);
    lemma_layout_round_trip(13, seq![]);
    lemma_layout_round_trip(14, seq![]);
    lemma_layout_round_trip(15, seq![]);
    assert forall|c: char| c != '1' && c != '2' && c != '3' && c != '4' && c != 'q' && c != 'w' && c != 'e' && c != 'r' && c != 'a' && c != 's' && c != 'd' && c != 'f' && c != 'z' && c != 'x' && c != 'c' && c != 'v' implies key_button(seq![c]) is None by {
        assert(seq![c][0] == c);
    }
}

} // verus!
