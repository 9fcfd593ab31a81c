//! What a key does in each part of the program, and how instructions are
//! named on the screen.

use crate::cpu::Instruction;
use crate::rules::{MoveDir, PlayerMove};
use vstd::prelude::*;

verus! {

/// A key as the program tells keys apart.
#[derive(Debug, PartialEq, Eq, Copy, Clone, Structural)]
pub enum InputKey {
    Up,
    Down,
    Left,
    Right,
    Esc,
    Char(char),
    Other,
}

/// What a key asks of the game's screen.
#[derive(Debug, PartialEq, Eq, Copy, Clone, Structural)]
pub enum GameCommand {
    /// A turn of the game.
    Play(PlayerMove),
    /// Show the table of characters.
    ShowEncoding,
    /// Show bytes as bits or as hexadecimal numbers, whichever is not shown.
    ToggleByteMode,
    /// Mark the cells that the listed instructions name, or stop doing so.
    TogglePositions,
    Nothing,
}

/// What a key asks of the game's screen: the arrows and the letters k, h, j
/// and l move the player up, left, down and right; a rotates the page; x, p
/// and b change what is shown.
pub open spec fn game_command_spec(key: InputKey) -> GameCommand {
    if key == InputKey::Up || key == InputKey::Char('k') {
        GameCommand::Play(PlayerMove::Move(MoveDir::Up))
    } else if key == InputKey::Left || key == InputKey::Char('h') {
        GameCommand::Play(PlayerMove::Move(MoveDir::Left))
    } else if key == InputKey::Down || key == InputKey::Char('j') {
        GameCommand::Play(PlayerMove::Move(MoveDir::Down))
    } else if key == InputKey::Right || key == InputKey::Char('l') {
        GameCommand::Play(PlayerMove::Move(MoveDir::Right))
    } else if key == InputKey::Char('a') {
        GameCommand::Play(PlayerMove::RotatePage)
    } else if key == InputKey::Char('x') {
        GameCommand::ShowEncoding
    } else if key == InputKey::Char('p') {
        GameCommand::ToggleByteMode
    } else if key == InputKey::Char('b') {
        GameCommand::TogglePositions
    } else {
        GameCommand::Nothing
    }
}

/// What a key asks of the game's screen.
pub fn game_command(key: InputKey) -> (r: GameCommand)
    ensures
        r == game_command_spec(key),
{
    match key {
        InputKey::Up => GameCommand::Play(PlayerMove::Move(MoveDir::Up)),
        InputKey::Left => GameCommand::Play(PlayerMove::Move(MoveDir::Left)),
        InputKey::Down => GameCommand::Play(PlayerMove::Move(MoveDir::Down)),
        InputKey::Right => GameCommand::Play(PlayerMove::Move(MoveDir::Right)),
        InputKey::Char(c) => {
            if c == 'k' {
                GameCommand::Play(PlayerMove::Move(MoveDir::Up))
            } else if c == 'h' {
                GameCommand::Play(PlayerMove::Move(MoveDir::Left))
            } else if c == 'j' {
                GameCommand::Play(PlayerMove::Move(MoveDir::Down))
            } else if c == 'l' {
                GameCommand::Play(PlayerMove::Move(MoveDir::Right))
            } else if c == 'a' {
                GameCommand::Play(PlayerMove::RotatePage)
            } else if c == 'x' {
                GameCommand::ShowEncoding
            } else if c == 'p' {
                GameCommand::ToggleByteMode
            } else if c == 'b' {
                GameCommand::TogglePositions
            } else {
                GameCommand::Nothing
            }
        },
        _ => GameCommand::Nothing,
    }
}

/// What a key asks of the table of characters.
#[derive(Debug, PartialEq, Eq, Copy, Clone, Structural)]
pub enum TableCommand {
    Close,
    ScrollDown,
    ScrollUp,
    Nothing,
}

/// What a key asks of the table of characters: x, q and escape close it;
/// down, right, k and l scroll down; up, left, h and j scroll up.
pub open spec fn table_command_spec(key: InputKey) -> TableCommand {
    if key == InputKey::Char('x') || key == InputKey::Char('q') || key == InputKey::Esc {
        TableCommand::Close
    } else if key == InputKey::Down || key == InputKey::Right || key == InputKey::Char('k') || key
        == InputKey::Char('l') {
        TableCommand::ScrollDown
    } else if key == InputKey::Up || key == InputKey::Left || key == InputKey::Char('h') || key
        == InputKey::Char('j') {
        TableCommand::ScrollUp
    } else {
        TableCommand::Nothing
    }
}

/// What a key asks of the table of characters.
pub fn table_command(key: InputKey) -> (r: TableCommand)
    ensures
        r == table_command_spec(key),
{
    match key {
        InputKey::Esc => TableCommand::Close,
        InputKey::Down => TableCommand::ScrollDown,
        InputKey::Right => TableCommand::ScrollDown,
        InputKey::Up => TableCommand::ScrollUp,
        InputKey::Left => TableCommand::ScrollUp,
        InputKey::Char(c) => {
            if c == 'x' || c == 'q' {
                TableCommand::Close
            } else if c == 'k' || c == 'l' {
                TableCommand::ScrollDown
            } else if c == 'h' || c == 'j' {
                TableCommand::ScrollUp
            } else {
                TableCommand::Nothing
            }
        },
        _ => TableCommand::Nothing,
    }
}

/// What a key did to a menu.
#[derive(Debug, PartialEq, Eq, Copy, Clone, Structural)]
pub enum MenuEvent {
    /// Another entry may be selected now.
    Changed,
    /// The selected entry was chosen.
    Chosen(usize),
    Canceled,
    Ignored,
}

/// The digit that a character stands for, if it is one.
pub open spec fn digit_of(c: char) -> Option<int> {
    if '0' <= c <= '9' {
        Some(c as int - '0' as int)
    } else {
        None
    }
}

/// The entry that is selected after a key, in a menu of `len` entries: down
/// and up move round the entries, a digit selects the entry of that number if
/// there is one.
pub open spec fn menu_selection(selected: int, len: int, key: InputKey) -> int {
    match key {
        InputKey::Down => if selected + 1 >= len {
            0
        } else {
            selected + 1
        },
        InputKey::Up => if selected > 0 {
            selected - 1
        } else {
            len - 1
        },
        InputKey::Char(c) => match digit_of(c) {
            Some(n) => if n < len {
                n
            } else {
                selected
            },
            None => selected,
        },
        _ => selected,
    }
}

/// What a key does to a menu: the line end chooses the selected entry,
/// escape cancels a menu that can be canceled, a move or a digit changes the
/// selection.
pub open spec fn menu_event(selected: int, cancelable: bool, key: InputKey) -> MenuEvent {
    match key {
        InputKey::Down => MenuEvent::Changed,
        InputKey::Up => MenuEvent::Changed,
        InputKey::Char(c) => if digit_of(c) is Some {
            MenuEvent::Changed
        } else if c == '\n' {
            MenuEvent::Chosen(selected as usize)
        } else {
            MenuEvent::Ignored
        },
        InputKey::Esc => if cancelable {
            MenuEvent::Canceled
        } else {
            MenuEvent::Ignored
        },
        _ => MenuEvent::Ignored,
    }
}

/// Handles a key in a menu of `len` entries. Hands out the entry that is
/// selected afterwards and what the key did.
pub fn menu_step(selected: usize, len: usize, cancelable: bool, key: InputKey) -> (r: (
    usize,
    MenuEvent,
))
    requires
        selected < len,
    ensures
        r.0 == menu_selection(selected as int, len as int, key),
        r.1 == menu_event(selected as int, cancelable, key),
        r.0 < len,
{
    match key {
        InputKey::Down => {
            let next = if selected + 1 >= len {
                0
            } else {
                selected + 1
            };
            (next, MenuEvent::Changed)
        },
        InputKey::Up => {
            let next = if selected > 0 {
                selected - 1
            } else {
                len - 1
            };
            (next, MenuEvent::Changed)
        },
        InputKey::Char(c) => {
            if '0' <= c && c <= '9' {
                let n: usize = (c as u32 - '0' as u32) as usize;
                let next = if n < len {
                    n
                } else {
                    selected
                };
                (next, MenuEvent::Changed)
            } else if c == '\n' {
                (selected, MenuEvent::Chosen(selected))
            } else {
                (selected, MenuEvent::Ignored)
            }
        },
        InputKey::Esc => {
            if cancelable {
                (selected, MenuEvent::Canceled)
            } else {
                (selected, MenuEvent::Ignored)
            }
        },
        _ => (selected, MenuEvent::Ignored),
    }
}

/// What the main menu asks for.
#[derive(Debug, PartialEq, Eq, Copy, Clone, Structural)]
pub enum MainMenuAction {
    NewGame,
    Exit,
    Nothing,
}

/// What an event of the main menu asks for: its first entry starts a game,
/// its second entry and a cancel leave the program.
pub fn main_menu_action(event: MenuEvent) -> (r: MainMenuAction)
    ensures
        r == match event {
            MenuEvent::Chosen(0) => MainMenuAction::NewGame,
            MenuEvent::Chosen(1) => MainMenuAction::Exit,
            MenuEvent::Canceled => MainMenuAction::Exit,
            _ => MainMenuAction::Nothing,
        },
{
    match event {
        MenuEvent::Chosen(n) => {
            if n == 0 {
                MainMenuAction::NewGame
            } else if n == 1 {
                MainMenuAction::Exit
            } else {
                MainMenuAction::Nothing
            }
        },
        MenuEvent::Canceled => MainMenuAction::Exit,
        _ => MainMenuAction::Nothing,
    }
}

/// How an instruction is written on the screen.
#[derive(Debug, PartialEq, Eq, Copy, Clone)]
pub struct InstructionLabel {
    pub text: &'static str,
    /// The operand.
    pub arg: u16,
    /// The bytes of the operand: 2, 1, or 0 where there is none.
    pub arg_width: u8,
}

/// The name of an instruction on the screen.
pub open spec fn instruction_name(instruction: Instruction) -> Seq<char> {
    match instruction {
        Instruction::Swap(_) => "SWAP"@,
        Instruction::Jump(_) => "JUMP"@,
        Instruction::Compare(_) => "CMPR"@,
        Instruction::JumpEqual(_) => "JE"@,
        Instruction::JumpLess(_) => "JL"@,
        Instruction::JumpGreater(_) => "JG"@,
        Instruction::Add(_) => "ADD"@,
        Instruction::Page(_) => "PAGE"@,
        Instruction::NoOp => ""@,
    }
}

/// The operand of an instruction, or zero where it has none.
pub open spec fn instruction_arg(instruction: Instruction) -> u16 {
    match instruction {
        Instruction::Swap(v) => v,
        Instruction::Jump(v) => v,
        Instruction::JumpEqual(v) => v,
        Instruction::JumpLess(v) => v,
        Instruction::JumpGreater(v) => v,
        Instruction::Compare(v) => v as u16,
        Instruction::Add(v) => v as u16,
        Instruction::Page(v) => v as u16,
        Instruction::NoOp => 0,
    }
}

/// How many bytes the operand of an instruction has.
pub open spec fn instruction_arg_width(instruction: Instruction) -> u8 {
    match instruction {
        Instruction::NoOp => 0,
        Instruction::Compare(_) => 1,
        Instruction::Add(_) => 1,
        Instruction::Page(_) => 1,
        _ => 2,
    }
}

/// How an instruction is written on the screen.
pub fn instruction_label(instruction: Instruction) -> (r: InstructionLabel)
    ensures
        r.text@ == instruction_name(instruction),
        r.arg == instruction_arg(instruction),
        r.arg_width == instruction_arg_width(instruction),
{
    match instruction {
        Instruction::Swap(pos) => InstructionLabel { text: "SWAP", arg: pos, arg_width: 2 },
        Instruction::Jump(pos) => InstructionLabel { text: "JUMP", arg: pos, arg_width: 2 },
        Instruction::Compare(v) => InstructionLabel { text: "CMPR", arg: v as u16, arg_width: 1 },
        Instruction::JumpEqual(pos) => InstructionLabel { text: "JE", arg: pos, arg_width: 2 },
        Instruction::JumpLess(pos) => InstructionLabel { text: "JL", arg: pos, arg_width: 2 },
        Instruction::JumpGreater(pos) => InstructionLabel { text: "JG", arg: pos, arg_width: 2 },
        Instruction::Add(v) => InstructionLabel { text: "ADD", arg: v as u16, arg_width: 1 },
        Instruction::Page(v) => InstructionLabel { text: "PAGE", arg: v as u16, arg_width: 1 },
        Instruction::NoOp => InstructionLabel { text: "", arg: 0, arg_width: 0 },
    }
}

} // verus!
