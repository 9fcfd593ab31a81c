use ethdec::cpu::Instruction;
use ethdec::input::{
    game_command, instruction_label, main_menu_action, menu_step, table_command, GameCommand,
    InputKey, MainMenuAction, MenuEvent, TableCommand,
};
use ethdec::rules::{MoveDir, PlayerMove};

#[test]
fn keys_of_the_game() {
    let play = |dir| GameCommand::Play(PlayerMove::Move(dir));
    assert_eq!(game_command(InputKey::Up), play(MoveDir::Up));
    assert_eq!(game_command(InputKey::Char('k')), play(MoveDir::Up));
    assert_eq!(game_command(InputKey::Left), play(MoveDir::Left));
    assert_eq!(game_command(InputKey::Char('h')), play(MoveDir::Left));
    assert_eq!(game_command(InputKey::Down), play(MoveDir::Down));
    assert_eq!(game_command(InputKey::Char('j')), play(MoveDir::Down));
    assert_eq!(game_command(InputKey::Right), play(MoveDir::Right));
    assert_eq!(game_command(InputKey::Char('l')), play(MoveDir::Right));
    assert_eq!(
        game_command(InputKey::Char('a')),
        GameCommand::Play(PlayerMove::RotatePage)
    );
    assert_eq!(game_command(InputKey::Char('x')), GameCommand::ShowEncoding);
    assert_eq!(game_command(InputKey::Char('p')), GameCommand::ToggleByteMode);
    assert_eq!(game_command(InputKey::Char('b')), GameCommand::TogglePositions);
    assert_eq!(game_command(InputKey::Char('K')), GameCommand::Nothing);
    assert_eq!(game_command(InputKey::Char('q')), GameCommand::Nothing);
    assert_eq!(game_command(InputKey::Esc), GameCommand::Nothing);
    assert_eq!(game_command(InputKey::Other), GameCommand::Nothing);
}

#[test]
fn keys_of_the_table_of_characters() {
    for key in [InputKey::Char('x'), InputKey::Char('q'), InputKey::Esc] {
        assert_eq!(table_command(key), TableCommand::Close);
    }
    for key in [
        InputKey::Down,
        InputKey::Right,
        InputKey::Char('k'),
        InputKey::Char('l'),
    ] {
        assert_eq!(table_command(key), TableCommand::ScrollDown);
    }
    for key in [
        InputKey::Up,
        InputKey::Left,
        InputKey::Char('h'),
        InputKey::Char('j'),
    ] {
        assert_eq!(table_command(key), TableCommand::ScrollUp);
    }
    assert_eq!(table_command(InputKey::Char('a')), TableCommand::Nothing);
    assert_eq!(table_command(InputKey::Other), TableCommand::Nothing);
}

#[test]
fn menu_selection_goes_round() {
    assert_eq!(menu_step(0, 3, false, InputKey::Down), (1, MenuEvent::Changed));
    assert_eq!(menu_step(2, 3, false, InputKey::Down), (0, MenuEvent::Changed));
    assert_eq!(menu_step(0, 3, false, InputKey::Up), (2, MenuEvent::Changed));
    assert_eq!(menu_step(2, 3, false, InputKey::Up), (1, MenuEvent::Changed));
    assert_eq!(menu_step(0, 1, false, InputKey::Down), (0, MenuEvent::Changed));
    assert_eq!(menu_step(0, 1, false, InputKey::Up), (0, MenuEvent::Changed));
}

#[test]
fn menu_digits_select_entries() {
    assert_eq!(
        menu_step(0, 3, false, InputKey::Char('2')),
        (2, MenuEvent::Changed)
    );
    assert_eq!(
        menu_step(1, 3, false, InputKey::Char('0')),
        (0, MenuEvent::Changed)
    );
    assert_eq!(
        menu_step(1, 3, false, InputKey::Char('3')),
        (1, MenuEvent::Changed)
    );
    assert_eq!(
        menu_step(1, 3, false, InputKey::Char('9')),
        (1, MenuEvent::Changed)
    );
    assert_eq!(
        menu_step(1, 12, false, InputKey::Char('9')),
        (9, MenuEvent::Changed)
    );
}

#[test]
fn menu_chooses_and_cancels() {
    assert_eq!(
        menu_step(1, 3, false, InputKey::Char('\n')),
        (1, MenuEvent::Chosen(1))
    );
    assert_eq!(menu_step(1, 3, true, InputKey::Esc), (1, MenuEvent::Canceled));
    assert_eq!(menu_step(1, 3, false, InputKey::Esc), (1, MenuEvent::Ignored));
    assert_eq!(menu_step(1, 3, true, InputKey::Left), (1, MenuEvent::Ignored));
    assert_eq!(
        menu_step(1, 3, true, InputKey::Char('x')),
        (1, MenuEvent::Ignored)
    );
    assert_eq!(menu_step(1, 3, true, InputKey::Other), (1, MenuEvent::Ignored));
}

#[test]
fn main_menu_entries() {
    assert_eq!(main_menu_action(MenuEvent::Chosen(0)), MainMenuAction::NewGame);
    assert_eq!(main_menu_action(MenuEvent::Chosen(1)), MainMenuAction::Exit);
    assert_eq!(main_menu_action(MenuEvent::Chosen(2)), MainMenuAction::Nothing);
    assert_eq!(main_menu_action(MenuEvent::Canceled), MainMenuAction::Exit);
    assert_eq!(main_menu_action(MenuEvent::Changed), MainMenuAction::Nothing);
    assert_eq!(main_menu_action(MenuEvent::Ignored), MainMenuAction::Nothing);
}

#[test]
fn instructions_have_labels() {
    let label = |i| {
        let l = instruction_label(i);
        (l.text, l.arg, l.arg_width)
    };
    assert_eq!(label(Instruction::Swap(0x1234)), ("SWAP", 0x1234, 2));
    assert_eq!(label(Instruction::Jump(0x0001)), ("JUMP", 1, 2));
    assert_eq!(label(Instruction::Compare(7)), ("CMPR", 7, 1));
    assert_eq!(label(Instruction::JumpEqual(2)), ("JE", 2, 2));
    assert_eq!(label(Instruction::JumpLess(3)), ("JL", 3, 2));
    assert_eq!(label(Instruction::JumpGreater(4)), ("JG", 4, 2));
    assert_eq!(label(Instruction::Add(0xff)), ("ADD", 0xff, 1));
    assert_eq!(label(Instruction::Page(9)), ("PAGE", 9, 1));
    assert_eq!(label(Instruction::NoOp), ("", 0, 0));
}
