//! Translation of the numeric input codes that the Godot scenes send into
//! the key presses that the game logic understands.
use vstd::prelude::*;
use crate::directions::Direction;

verus! {

/// A key press as the game logic receives it.
#[derive(Clone, Copy, Debug, PartialEq, Eq, Structural)]
pub enum KeyCode {
    Char(char),
    Esc,
}

/// What a numeric input code from the scene stands for.
#[derive(Clone, Copy, Debug, PartialEq, Eq, Structural)]
pub enum GodotInput {
    Quit,
    Direction(Direction),
    Number(u8),
    Select,
    Cancel,
}

/// The meaning of an input code; defined for the codes 0 to 16.
pub open spec fn spec_godot_input(input: int) -> GodotInput {
    if input == 0 {
        GodotInput::Quit
    } else if 1 <= input <= 10 {
        GodotInput::Number(input as u8)
    } else if input == 11 {
        GodotInput::Direction(Direction::Right)
    } else if input == 12 {
        GodotInput::Direction(Direction::Up)
    } else if input == 13 {
        GodotInput::Direction(Direction::Left)
    } else if input == 14 {
        GodotInput::Direction(Direction::Down)
    } else if input == 15 {
        GodotInput::Select
    } else {
        GodotInput::Cancel
    }
}

/// The character a number key sends: '1' for 1, up to the character after '9' for 10.
pub open spec fn spec_number_char(n: int) -> char {
    (49 + (n - 1)) as char
}

/// The key that an input stands for, with the movement keys in lower case.
pub open spec fn spec_key_code(input: GodotInput) -> KeyCode {
    match input {
        GodotInput::Direction(Direction::Right) => KeyCode::Char('d'),
        GodotInput::Direction(Direction::Up) => KeyCode::Char('w'),
        GodotInput::Direction(Direction::Left) => KeyCode::Char('a'),
        GodotInput::Direction(Direction::Down) => KeyCode::Char('s'),
        GodotInput::Number(i) => KeyCode::Char(spec_number_char(i as int)),
        GodotInput::Select => KeyCode::Char(' '),
        GodotInput::Cancel => KeyCode::Char('q'),
        GodotInput::Quit => KeyCode::Esc,
    }
}

/// The key that an input stands for in the first version of the game state node,
/// which sends the movement keys in upper case and knows no cancel input.
pub open spec fn spec_legacy_key_code(input: GodotInput) -> KeyCode {
    match input {
        GodotInput::Direction(Direction::Right) => KeyCode::Char('D'),
        GodotInput::Direction(Direction::Up) => KeyCode::Char('W'),
        GodotInput::Direction(Direction::Left) => KeyCode::Char('A'),
        GodotInput::Direction(Direction::Down) => KeyCode::Char('S'),
        _ => spec_key_code(input),
    }
}

/// Reads an input code. Codes outside 0 to 16 are invalid and refused by `requires`.
pub fn godot_input_from_code(input: i32) -> (res: GodotInput)
    requires
        0 <= input <= 16,
    ensures
        res == spec_godot_input(input as int),
{
    match input {
        0 => GodotInput::Quit,
        1 => GodotInput::Number(1),
        2 => GodotInput::Number(2),
        3 => GodotInput::Number(3),
        4 => GodotInput::Number(4),
        5 => GodotInput::Number(5),
        6 => GodotInput::Number(6),
        7 => GodotInput::Number(7),
        8 => GodotInput::Number(8),
        9 => GodotInput::Number(9),
        10 => GodotInput::Number(10),
        11 => GodotInput::Direction(Direction::Right),
        12 => GodotInput::Direction(Direction::Up),
        13 => GodotInput::Direction(Direction::Left),
        14 => GodotInput::Direction(Direction::Down),
        15 => GodotInput::Select,
        _ => GodotInput::Cancel,
    }
}

/// The character for number key `i`, 1 to 10.
fn number_char(i: u8) -> (c: char)
    requires
        1 <= i <= 10,
    ensures
        c == spec_number_char(i as int),
{
    let b: u8 = 49 + (i - 1);
    b as char
}

/// The key code for a decoded input. Numbers outside 1 to 10 are refused by `requires`.
pub fn key_code_for(input: GodotInput) -> (res: KeyCode)
    requires
        input matches GodotInput::Number(i) ==> 1 <= i <= 10,
    ensures
        res == spec_key_code(input),
{
    match input {
        GodotInput::Direction(Direction::Right) => KeyCode::Char('d'),
        GodotInput::Direction(Direction::Up) => KeyCode::Char('w'),
        GodotInput::Direction(Direction::Left) => KeyCode::Char('a'),
        GodotInput::Direction(Direction::Down) => KeyCode::Char('s'),
        GodotInput::Number(i) => KeyCode::Char(number_char(i)),
        GodotInput::Select => KeyCode::Char(' '),
        GodotInput::Cancel => KeyCode::Char('q'),
        GodotInput::Quit => KeyCode::Esc,
    }
}

/// The key press for an input code of the game state node; codes 0 to 16.
pub fn handle_input(input: i32) -> (res: KeyCode)
    requires
        0 <= input <= 16,
    ensures
        res == spec_key_code(spec_godot_input(input as int)),
{
    let gd_input = godot_input_from_code(input);
    key_code_for(gd_input)
}

/// The key press for an input code of the first game state node; codes 0 to 15.
pub fn legacy_handle_input(input: i32) -> (res: KeyCode)
    requires
        0 <= input <= 15,
    ensures
        res == spec_legacy_key_code(spec_godot_input(input as int)),
{
    let gd_input = godot_input_from_code(input);
    match gd_input {
        GodotInput::Direction(Direction::Right) => KeyCode::Char('D'),
        GodotInput::Direction(Direction::Up) => KeyCode::Char('W'),
        GodotInput::Direction(Direction::Left) => KeyCode::Char('A'),
        GodotInput::Direction(Direction::Down) => KeyCode::Char('S'),
        _ => key_code_for(gd_input),
    }
}

/// Distinct input codes give distinct key presses: no two buttons of the scene
/// are confused with each other.
pub proof fn lemma_key_codes_distinct(a: int, b: int)
    requires
        0 <= a <= 16,
        0 <= b <= 16,
        a != b,
    ensures
        spec_key_code(spec_godot_input(a)) != spec_key_code(spec_godot_input(b)),
{
}

/// The same holds of the first game state node on its codes 0 to 15.
pub proof fn lemma_legacy_key_codes_distinct(a: int, b: int)
    requires
        0 <= a <= 15,
        0 <= b <= 15,
        a != b,
    ensures
        spec_legacy_key_code(spec_godot_input(a)) != spec_legacy_key_code(spec_godot_input(b)),
{
}

/// Number button `n` (1 to 10) presses the key whose character comes `n` after
/// '0' ('1' to '9', then ':'), on both game state nodes.
pub proof fn lemma_number_codes_press_their_digit(n: int)
    requires
        1 <= n <= 10,
    ensures
        spec_key_code(spec_godot_input(n)) == KeyCode::Char((48 + n) as char),
        spec_legacy_key_code(spec_godot_input(n)) == KeyCode::Char((48 + n) as char),
{
}

/// The first game state node presses what the current one does on every code
/// but the four movement codes, where it presses the same letter in upper case.
pub proof fn lemma_legacy_differs_only_in_movement(n: int)
    requires
        0 <= n <= 15,
    ensures
        !(11 <= n <= 14) ==> spec_legacy_key_code(spec_godot_input(n)) == spec_key_code(spec_godot_input(n)),
        n == 11 ==> spec_key_code(spec_godot_input(n)) == KeyCode::Char('d')
            && spec_legacy_key_code(spec_godot_input(n)) == KeyCode::Char('D'),
        n == 12 ==> spec_key_code(spec_godot_input(n)) == KeyCode::Char('w')
            && spec_legacy_key_code(spec_godot_input(n)) == KeyCode::Char('W'),
        n == 13 ==> spec_key_code(spec_godot_input(n)) == KeyCode::Char('a')
            && spec_legacy_key_code(spec_godot_input(n)) == KeyCode::Char('A'),
        n == 14 ==> spec_key_code(spec_godot_input(n)) == KeyCode::Char('s')
            && spec_legacy_key_code(spec_godot_input(n)) == KeyCode::Char('S'),
{
}

} // verus!
