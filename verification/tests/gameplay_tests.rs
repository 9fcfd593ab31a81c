use ethdec::bytegrid::ByteGrid;
use ethdec::cpu::{Instruction, PlayerPos, RegisterId, CPU};
use ethdec::gameplay::{GamePlayState, DEFAULT_PAGE, PLAYER_VAL};
use ethdec::page::{joinu16, joinu8, splitu16, PageState, Trigger, TriggerKind};
use ethdec::rules::{step, GameRules, MoveDir, PageRotationRule, PlayerMove, WrapingMode};
use ethdec::vecmath::V2;

fn game_with(text: &[u8]) -> GamePlayState {
    GamePlayState::from_grid(ByteGrid::from_raw_str(text))
}

fn register(game: &GamePlayState, id: RegisterId) -> u8 {
    game.cpu[0].get_register_effective_r(id, game.player, game.player_mask())
}

#[test]
fn add_pos_normal() {
    let tests = vec![
        (V2 { x: 1, y: 1 }, MoveDir::Up, V2 { x: 1, y: 0 }),
        (V2 { x: 1, y: 1 }, MoveDir::Left, V2 { x: 0, y: 1 }),
        (V2 { x: 1, y: 1 }, MoveDir::Down, V2 { x: 1, y: 2 }),
        (V2 { x: 1, y: 1 }, MoveDir::Right, V2 { x: 2, y: 1 }),
        (V2 { x: 10, y: 5 }, MoveDir::Up, V2 { x: 10, y: 4 }),
        (V2 { x: 10, y: 5 }, MoveDir::Left, V2 { x: 9, y: 5 }),
        (V2 { x: 10, y: 5 }, MoveDir::Down, V2 { x: 10, y: 6 }),
        (V2 { x: 10, y: 5 }, MoveDir::Right, V2 { x: 11, y: 5 }),
    ];
    for test_mode in vec![
        WrapingMode::Block,
        WrapingMode::WrapLine,
        WrapingMode::WrapGrid,
    ] {
        for (p0, dir, expected) in &tests {
            assert_eq!(step(*p0, *dir, test_mode), *expected);
        }
    }
}

#[test]
fn add_pos_wrap() {
    let tests = vec![
        (
            V2 { x: 0, y: 0 },
            MoveDir::Up,
            V2 { x: 0, y: 0 },
            V2 { x: 0, y: 255 },
            V2 { x: 255, y: 255 },
        ),
        (
            V2 { x: 0, y: 0 },
            MoveDir::Left,
            V2 { x: 0, y: 0 },
            V2 { x: 255, y: 0 },
            V2 { x: 255, y: 0 },
        ),
        (
            V2 { x: 255, y: 255 },
            MoveDir::Down,
            V2 { x: 255, y: 255 },
            V2 { x: 255, y: 0 },
            V2 { x: 0, y: 0 },
        ),
        (
            V2 { x: 255, y: 255 },
            MoveDir::Right,
            V2 { x: 255, y: 255 },
            V2 { x: 0, y: 255 },
            V2 { x: 0, y: 255 },
        ),
        (
            V2 { x: 5, y: 0 },
            MoveDir::Up,
            V2 { x: 5, y: 0 },
            V2 { x: 5, y: 255 },
            V2 { x: 4, y: 255 },
        ),
        (
            V2 { x: 5, y: 255 },
            MoveDir::Down,
            V2 { x: 5, y: 255 },
            V2 { x: 5, y: 0 },
            V2 { x: 6, y: 0 },
        ),
    ];
    for (p0, dir, expected_block, expected_line, expected_grid) in &tests {
        assert_eq!(step(*p0, *dir, WrapingMode::Block), *expected_block);
        assert_eq!(step(*p0, *dir, WrapingMode::WrapLine), *expected_line);
        assert_eq!(step(*p0, *dir, WrapingMode::WrapGrid), *expected_grid);
    }
}

#[test]
fn effective_value() {
    let st = GamePlayState::new_empty();
    let current_page = st.current_page();
    let v = st.effective_value(current_page, V2::make(0, 0));
    assert_eq!(v, b'@');
    let v = st.effective_value(current_page, V2::make(0, 1));
    assert_eq!(v, 0u8);
}

#[test]
fn trigger() {
    let grid = ByteGrid::from_raw_str(b"@");
    let mut game = GamePlayState::from_grid(grid);
    game.pages.get_mut(&DEFAULT_PAGE).map(|page| {
        page.triggers.insert(
            0x0100,
            Trigger {
                pos: V2::make(1, 0),
                effect: TriggerKind::SetPC(0x1010),
                triggered: false,
                one_time: true,
            },
        );
        page.triggers.insert(
            0x0200,
            Trigger {
                pos: V2::make(2, 0),
                effect: TriggerKind::SetPC(0x1110),
                triggered: false,
                one_time: false,
            },
        );
        page.triggers.insert(
            0x0300,
            Trigger {
                pos: V2::make(3, 0),
                effect: TriggerKind::SetPC(0x1210),
                triggered: false,
                one_time: true,
            },
        );
    });

    assert_eq!(game.cpu[0].pc, 0);
    {
        let trigger = game.current_page().triggers.get(&0x100).unwrap();
        assert_eq!(trigger.is_active(), true);
    }
    game.make_move(PlayerMove::Move(MoveDir::Right));
    assert_eq!(game.cpu[0].pc, 0x1010);
    {
        let trigger = game.current_page().triggers.get(&0x100).unwrap();
        assert_eq!(trigger.is_active(), false);
    }
    game.make_move(PlayerMove::Move(MoveDir::Right));
    assert_eq!(game.cpu[0].pc, 0x1110);
    game.make_move(PlayerMove::Move(MoveDir::Right));
    assert_eq!(game.cpu[0].pc, 0x1210);
    game.make_move(PlayerMove::Move(MoveDir::Left));
    assert_eq!(game.cpu[0].pc, 0x1110);
    game.make_move(PlayerMove::Move(MoveDir::Left));
    assert_eq!(game.cpu[0].pc, 0x1110);
}

#[test]
fn page_instruction() {
    let grid = ByteGrid::from_raw_str(b"@  \x01\ns\x00\x00\np\x02\ns\x03\x00\n\nj\x10\x10");
    let page2 = ByteGrid::from_raw_str(b"\n\n\ns\x04\x00\n\nj\x00\x06\nj\x00\x05");
    let mut game = GamePlayState::from_grid(grid);
    game.pages.insert(0x02, PageState::from_grid(page2));

    game.make_move(PlayerMove::RotatePage);
    assert_eq!(0x42, game.player_page);
    game.cpu[0].pc = 0x0001;
    game.make_move(PlayerMove::Move(MoveDir::Left)); // wait in corner, swap in to data
    assert_eq!(PlayerPos::Register(RegisterId::Data as usize), game.player);
    game.make_move(PlayerMove::Move(MoveDir::Down)); // block move to data, p2
    assert_eq!(0x02, game.player_page);
    assert_eq!(
        0x02,
        game.cpu[0].get_register_effective_r(RegisterId::Page, game.player, game.player_mask())
    );
    assert_eq!(PlayerPos::Register(RegisterId::Data as usize), game.player);
    game.make_move(PlayerMove::Move(MoveDir::Down));
    assert_eq!(0x42, game.player_page);
    assert_eq!(
        0x42,
        game.cpu[0].get_register_effective_r(RegisterId::Page, game.player, game.player_mask())
    );
    assert_eq!(PlayerPos::Register(RegisterId::Page as usize), game.player);
    assert_eq!(
        0x01,
        game.cpu[0].get_register_effective_r(RegisterId::Data, game.player, game.player_mask())
    );
    game.make_move(PlayerMove::Move(MoveDir::Up));
    assert_eq!(0x2, game.player_page);
    assert_eq!(
        0x2,
        game.cpu[0].get_register_effective_r(RegisterId::Page, game.player, game.player_mask())
    );
    assert_eq!(PlayerPos::Register(RegisterId::Data as usize), game.player);
    assert_eq!(
        0x41,
        game.cpu[0].get_register_effective_r(RegisterId::Data, game.player, game.player_mask())
    );
    assert_eq!(0x0004, game.cpu[0].pc);
    game.make_move(PlayerMove::Move(MoveDir::Up));
    assert_eq!(0x0004, game.cpu[0].pc);
    game.cpu[0].pc = 0x0003;
    game.make_move(PlayerMove::Move(MoveDir::Up));
    assert_eq!(PlayerPos::Pos(V2::make(0x04, 0x00)), game.player);
    game.cpu[0].pc = 0x0005;
    assert_eq!(0x2, game.player_page);
    assert_eq!(
        0x2,
        game.cpu[0].get_register_effective_r(RegisterId::Page, game.player, game.player_mask())
    );
    game.make_move(PlayerMove::RotatePage);
    assert_eq!(0x42, game.player_page);
    assert_eq!(
        0x2,
        game.cpu[0].get_register_effective_r(RegisterId::Page, game.player, game.player_mask())
    );

    assert_eq!(0x0005, game.cpu[0].pc); //instruction in inactive page shouldn't be executed
    game.make_move(PlayerMove::Move(MoveDir::Up));
    assert_eq!(0x0005, game.cpu[0].pc); // still sleeping
    game.make_move(PlayerMove::RotatePage);
    assert_eq!(0x02, game.player_page);
    assert_eq!(0x0005, game.cpu[0].pc); // no move on page rotation

    game.make_move(PlayerMove::Move(MoveDir::Up));
    assert_eq!(0x0006, game.cpu[0].pc);
}

#[test]
fn addresses_pack_and_split() {
    assert_eq!(joinu8(0x12, 0x34), 0x1234);
    assert_eq!(joinu16(V2::make(0x12, 0x34)), 0x1234);
    assert_eq!(joinu16(V2::make(0x112, -1)), 0x12ff);
    assert_eq!(splitu16(0x1234), V2::make(0x12, 0x34));
    assert_eq!(splitu16(0xffff), V2::make(255, 255));
    assert_eq!(splitu16(0), V2::make(0, 0));
}

#[test]
fn trigger_is_active_unless_one_time_and_fired() {
    let mut t = Trigger {
        pos: V2::make(1, 1),
        effect: TriggerKind::EndOfLevel,
        one_time: true,
        triggered: false,
    };
    assert!(t.is_active());
    t.triggered = true;
    assert!(!t.is_active());
    t.one_time = false;
    assert!(t.is_active());
    t.triggered = false;
    assert!(t.is_active());
}

#[test]
fn page_reads_its_trigger_table() {
    let mut grid = ByteGrid::new();
    grid.set_xy(0, 0x24, 2);
    grid.set_xy(1, 0x24, 1);
    grid.set_xy(2, 0x24, 3);
    grid.set_xy(3, 0x24, 5);
    grid.set_xy(0, 0x25, 7);
    grid.set_xy(1, 0x25, 8);
    grid.set_xy(2, 0x25, 0);
    grid.set_xy(3, 0x25, 9);
    // a record with one zero coordinate names a cell like any other
    grid.set_xy(0, 0x26, 4);
    grid.set_xy(1, 0x26, 0);
    grid.set_xy(0, 0x27, 6);
    grid.set_xy(1, 0x27, 6);
    // row 0x28 holds column zero and row zero: the table ends here,
    // whatever its target is
    grid.set_xy(2, 0x28, 1);
    grid.set_xy(3, 0x28, 1);
    grid.set_xy(0, 0x29, 8);
    grid.set_xy(1, 0x29, 8);
    // rows above the table are no records
    grid.set_xy(0, 0x23, 9);
    grid.set_xy(1, 0x23, 9);
    let page = PageState::from_grid(grid.clone());
    assert!(page.memory == grid);
    assert_eq!(page.triggers.len(), 4);
    let t = page.triggers.get(&0x0201).unwrap();
    assert_eq!(t.pos, V2::make(2, 1));
    assert!(matches!(t.effect, TriggerKind::SetPC(0x0305)));
    assert!(t.one_time);
    assert!(!t.triggered);
    let t = page.triggers.get(&0x0708).unwrap();
    assert!(matches!(t.effect, TriggerKind::SetPC(0x0009)));
    let t = page.triggers.get(&0x0400).unwrap();
    assert_eq!(t.pos, V2::make(4, 0));
    assert!(matches!(t.effect, TriggerKind::SetPC(0)));
    assert!(page.triggers.get(&0x0606).is_some());
    assert!(page.triggers.get(&0x0000).is_none());
    assert!(page.triggers.get(&0x0808).is_none());
    assert!(page.triggers.get(&0x0909).is_none());
}

#[test]
fn trigger_table_reaches_first_row_and_first_column() {
    let mut grid = ByteGrid::new();
    // a trigger in row 0, at (5, 0)
    grid.set_xy(0, 0x24, 5);
    grid.set_xy(1, 0x24, 0);
    grid.set_xy(2, 0x24, 0x10);
    grid.set_xy(3, 0x24, 0x20);
    // a trigger in column 0, at (0, 7)
    grid.set_xy(0, 0x25, 0);
    grid.set_xy(1, 0x25, 7);
    grid.set_xy(2, 0x25, 0x30);
    grid.set_xy(3, 0x25, 0x41);
    let page = PageState::from_grid(grid.clone());
    assert_eq!(page.triggers.len(), 2);
    let t = page.triggers.get(&0x0500).unwrap();
    assert_eq!(t.pos, V2::make(5, 0));
    assert!(matches!(t.effect, TriggerKind::SetPC(0x1020)));
    assert!(t.one_time);
    assert!(!t.triggered);
    let t = page.triggers.get(&0x0007).unwrap();
    assert_eq!(t.pos, V2::make(0, 7));
    assert!(matches!(t.effect, TriggerKind::SetPC(0x3041)));

    // the triggers fire in play
    let mut game = GamePlayState::from_grid(grid);
    assert_eq!(game.player, PlayerPos::Pos(V2::make(0, 0)));
    for _ in 0..5 {
        game.make_move(PlayerMove::Move(MoveDir::Right));
    }
    assert_eq!(game.player, PlayerPos::Pos(V2::make(5, 0)));
    assert_eq!(game.cpu[0].pc, 0x1020);
    assert!(!game.current_page().triggers.get(&0x0500).unwrap().is_active());
}

#[test]
fn trigger_table_fills_every_row_to_the_last() {
    let mut grid = ByteGrid::new();
    for row in 0x24u8..=0xff {
        grid.set_xy(0, row, row);
        grid.set_xy(1, row, 1);
        grid.set_xy(3, row, row);
    }
    let page = PageState::from_grid(grid);
    assert_eq!(page.triggers.len(), 256 - 0x24);
    assert!(matches!(
        page.triggers.get(&0xff01).unwrap().effect,
        TriggerKind::SetPC(0x00ff)
    ));
    assert!(matches!(
        page.triggers.get(&0x2401).unwrap().effect,
        TriggerKind::SetPC(0x0024)
    ));
}

#[test]
fn page_without_table_has_no_trigger() {
    assert_eq!(PageState::new().triggers.len(), 0);
    assert!(PageState::new().memory == ByteGrid::new());
    let grid = ByteGrid::from_raw_str(b"some text");
    let raw = PageState::from_grid_raw(grid.clone());
    assert_eq!(raw.triggers.len(), 0);
    assert!(raw.memory == grid);
    assert_eq!(PageState::from_grid(grid).triggers.len(), 0);
}

#[test]
fn later_record_replaces_earlier_for_same_cell() {
    let mut grid = ByteGrid::new();
    for (row, target) in [(0x24u8, 1u8), (0x25u8, 2u8)] {
        grid.set_xy(0, row, 5);
        grid.set_xy(1, row, 5);
        grid.set_xy(3, row, target);
    }
    let page = PageState::from_grid(grid);
    assert_eq!(page.triggers.len(), 1);
    assert!(matches!(
        page.triggers.get(&0x0505).unwrap().effect,
        TriggerKind::SetPC(2)
    ));
}

#[test]
fn new_cpu_has_three_registers() {
    let cpu = CPU::new();
    assert_eq!(cpu.pc, 0);
    assert_eq!(cpu.registers.len(), 3);
    assert_eq!(cpu.get_register(RegisterId::Data).value, 0);
    assert_eq!(cpu.get_register(RegisterId::Page).value, 0);
    assert_eq!(cpu.get_register(RegisterId::Compare).value, 0xff);
    assert_eq!(cpu.get_register(RegisterId::Data).name, "data");
    assert_eq!(cpu.get_register(RegisterId::Page).name, "page");
    assert_eq!(cpu.get_register(RegisterId::Compare).name, "compare");
    assert!(!cpu.get_register(RegisterId::Data).protected);
    assert_eq!(RegisterId::Data.index(), 0);
    assert_eq!(RegisterId::Page.index(), 1);
    assert_eq!(RegisterId::Compare.index(), 2);
    assert_eq!(PlayerPos::from_reg(RegisterId::Compare), PlayerPos::Register(2));
}

#[test]
fn register_shows_player_bit_only_under_the_player() {
    let mut cpu = CPU::new();
    cpu.set_register(RegisterId::Data, 0x05);
    cpu.set_register(RegisterId::Page, 0x42);
    assert_eq!(cpu.get_register(RegisterId::Data).value, 0x05);
    assert_eq!(cpu.get_register(RegisterId::Data).name, "data");
    let on_data = PlayerPos::Register(0);
    assert_eq!(cpu.get_register_effective(0, on_data, 0x40), 0x45);
    assert_eq!(cpu.get_register_effective(1, on_data, 0x40), 0x42);
    assert_eq!(cpu.get_register_effective(2, on_data, 0x40), 0xff);
    assert_eq!(cpu.get_register_effective_r(RegisterId::Data, on_data, 0x10), 0x15);
    let on_grid = PlayerPos::Pos(V2::make(0, 0));
    assert_eq!(cpu.get_register_effective(0, on_grid, 0x40), 0x05);
    assert_eq!(cpu.get_register_effective_r(RegisterId::Data, on_grid, 0x40), 0x05);
}

#[test]
fn instruction_mem_operand() {
    assert_eq!(Instruction::Swap(1).mem_operand(), Some(1));
    assert_eq!(Instruction::Jump(2).mem_operand(), Some(2));
    assert_eq!(Instruction::JumpEqual(3).mem_operand(), Some(3));
    assert_eq!(Instruction::JumpLess(4).mem_operand(), Some(4));
    assert_eq!(Instruction::JumpGreater(5).mem_operand(), Some(5));
    assert_eq!(Instruction::Compare(6).mem_operand(), None);
    assert_eq!(Instruction::Add(7).mem_operand(), None);
    assert_eq!(Instruction::Page(8).mem_operand(), None);
    assert_eq!(Instruction::NoOp.mem_operand(), None);
}

#[test]
fn default_rules() {
    let rules = GameRules::new();
    assert_eq!(rules.wrap_mode, WrapingMode::Block);
    assert!(rules.reset_registers_on_trigger);
    assert!(rules.page_instruction);
    assert_eq!(rules.rotate_page, PageRotationRule::Always);
    assert_eq!(GameRules::default(), rules);
    assert_eq!(WrapingMode::default(), WrapingMode::Block);
    assert_eq!(PageRotationRule::default(), PageRotationRule::Always);
}

#[test]
fn new_game_state() {
    let game = GamePlayState::new();
    assert_eq!(game.player, PlayerPos::Pos(V2::make(0, 0)));
    assert_eq!(game.player_page, 0);
    assert_eq!(game.player_offset, 6);
    assert_eq!(game.player_mask(), 0x40);
    assert_eq!(game.pages.len(), 0);
    assert_eq!(game.cpu.len(), 1);
    assert!(!game.end_of_level);
    // a page that the game does not have reads as blank
    assert!(game.current_page().memory == ByteGrid::new());
    assert_eq!(game.read_instruction(0x1234, 9), Instruction::NoOp);
}

#[test]
fn player_starts_at_first_marker_in_reading_order() {
    let grid = ByteGrid::from_raw_str(b"..\n.@@\n@");
    assert_eq!(GamePlayState::get_start(&grid), V2::make(1, 1));
    assert_eq!(GamePlayState::get_start(&ByteGrid::new()), V2::make(0, 0));
    let mut last = ByteGrid::new();
    last.set_xy(255, 255, PLAYER_VAL);
    assert_eq!(GamePlayState::get_start(&last), V2::make(255, 255));
}

#[test]
fn from_grid_clears_the_start_cell() {
    let game = game_with(b"..\n.@@");
    assert_eq!(game.player, PlayerPos::Pos(V2::make(1, 1)));
    assert_eq!(game.player_page, DEFAULT_PAGE);
    let page = game.current_page();
    assert_eq!(page.memory.get_xy(1, 1), 0);
    assert_eq!(page.memory.get_xy(2, 1), b'@');
    assert_eq!(page.memory.get_xy(0, 0), b'.');
    assert_eq!(game.effective_value(page, V2::make(1, 1)), 0x40);
    assert_eq!(register(&game, RegisterId::Page), DEFAULT_PAGE);
    assert_eq!(register(&game, RegisterId::Data), 0);
    assert_eq!(register(&game, RegisterId::Compare), 0xff);
    assert!(game.visited_pages.get(DEFAULT_PAGE));
    assert!(!game.visited_pages.get(0));
}

#[test]
fn effective_value_overlays_player_bit_on_stored_byte() {
    let mut game = game_with(b"@\x05");
    assert!(game.make_move(PlayerMove::Move(MoveDir::Right)).is_none());
    assert_eq!(game.player, PlayerPos::Pos(V2::make(1, 0)));
    let page = game.current_page();
    assert_eq!(page.memory.get_xy(1, 0), 0x05);
    assert_eq!(game.effective_value(page, V2::make(1, 0)), 0x45);
    assert_eq!(game.effective_value(page, V2::make(0, 0)), 0x00);
    assert_eq!(game.effective_value(page, V2::make(2, 0)), 0x00);
    assert!(game.accessible(0x05));
    assert!(!game.accessible(0x45));
    assert!(!game.accessible(0x40));
    assert!(game.accessible(0xbf));
}

#[test]
fn player_bit_follows_player_offset() {
    let mut game = game_with(b"@\x40");
    game.player_offset = 0;
    assert_eq!(game.player_mask(), 1);
    assert!(game.accessible(0x40));
    assert!(!game.accessible(0x41));
    game.make_move(PlayerMove::Move(MoveDir::Right));
    assert_eq!(game.player, PlayerPos::Pos(V2::make(1, 0)));
    assert_eq!(game.effective_value(game.current_page(), V2::make(1, 0)), 0x41);
}

#[test]
fn wall_blocks_the_player() {
    for wall in [0x40u8, 0x41, 0xc0, 0xff, b'A'] {
        let mut game = game_with(&[b'@', wall]);
        game.make_move(PlayerMove::Move(MoveDir::Right));
        assert_eq!(game.player, PlayerPos::Pos(V2::make(0, 0)));
        game.make_move(PlayerMove::Move(MoveDir::Right));
        assert_eq!(game.player, PlayerPos::Pos(V2::make(0, 0)));
        assert_eq!(game.current_page().memory.get_xy(1, 0), wall);
    }
    for free in [0x00u8, 0x01, 0x80, 0xbf, b'!'] {
        let mut game = game_with(&[b'@', free]);
        game.make_move(PlayerMove::Move(MoveDir::Right));
        assert_eq!(game.player, PlayerPos::Pos(V2::make(1, 0)));
    }
}

#[test]
fn wrap_modes_in_play() {
    let mut game = game_with(b"@");
    game.make_move(PlayerMove::Move(MoveDir::Up));
    assert_eq!(game.player, PlayerPos::Pos(V2::make(0, 0)));

    let mut game = game_with(b"@");
    game.game_rules.wrap_mode = WrapingMode::WrapLine;
    game.make_move(PlayerMove::Move(MoveDir::Up));
    assert_eq!(game.player, PlayerPos::Pos(V2::make(0, 255)));
    game.make_move(PlayerMove::Move(MoveDir::Left));
    assert_eq!(game.player, PlayerPos::Pos(V2::make(255, 255)));
    game.make_move(PlayerMove::Move(MoveDir::Down));
    assert_eq!(game.player, PlayerPos::Pos(V2::make(255, 0)));

    let mut game = game_with(b"@");
    game.game_rules.wrap_mode = WrapingMode::WrapGrid;
    game.make_move(PlayerMove::Move(MoveDir::Up));
    assert_eq!(game.player, PlayerPos::Pos(V2::make(255, 255)));
    game.make_move(PlayerMove::Move(MoveDir::Down));
    assert_eq!(game.player, PlayerPos::Pos(V2::make(0, 0)));
}

#[test]
fn swap_exchanges_data_and_memory() {
    let mut game = game_with(b"\x09@\ns\x00\x00");
    game.cpu[0].set_register(RegisterId::Data, 5);
    game.cpu[0].pc = 0x0001;
    assert_eq!(game.read_instruction(0x0001, DEFAULT_PAGE), Instruction::Swap(0));
    game.make_move(PlayerMove::Move(MoveDir::Right));
    assert_eq!(game.player, PlayerPos::Pos(V2::make(2, 0)));
    assert_eq!(register(&game, RegisterId::Data), 9);
    assert_eq!(game.current_page().memory.get(0), 5);
    assert_eq!(game.cpu[0].pc, 0x0002);
}

#[test]
fn swap_with_missing_page_only_advances() {
    let mut game = game_with(b"@");
    game.pages.clear();
    game.cpu[0].set_register(RegisterId::Data, 5);
    game.game_rules.wrap_mode = WrapingMode::WrapLine;
    // the blank page holds no instruction
    game.make_move(PlayerMove::Move(MoveDir::Right));
    assert_eq!(game.cpu[0].pc, 0);
    assert_eq!(register(&game, RegisterId::Data), 5);
    assert_eq!(game.pages.len(), 0);
}

#[test]
fn player_standing_on_operand_is_seen_by_decoder() {
    let mut game = game_with(b"@\nj\x00\x01");
    game.cpu[0].pc = 0x0001;
    assert_eq!(game.read_instruction(0x0001, DEFAULT_PAGE), Instruction::Jump(0x0001));
    game.player = PlayerPos::Pos(V2::make(1, 1));
    assert_eq!(game.read_instruction(0x0001, DEFAULT_PAGE), Instruction::Jump(0x4001));
    // every opcode has the player's bit set already: standing on it changes nothing
    game.player = PlayerPos::Pos(V2::make(0, 1));
    assert_eq!(game.read_instruction(0x0001, DEFAULT_PAGE), Instruction::Jump(0x0001));
}

#[test]
fn jump_sets_program_counter() {
    let mut game = game_with(b"@\nj\x12\x34");
    game.cpu[0].pc = 0x0001;
    game.make_move(PlayerMove::Move(MoveDir::Right));
    assert_eq!(game.cpu[0].pc, 0x1234);
}

#[test]
fn no_instruction_leaves_program_counter() {
    let mut game = game_with(b"@\n\nj\x12\x34");
    game.cpu[0].pc = 0x0001;
    game.make_move(PlayerMove::Move(MoveDir::Right));
    assert_eq!(game.cpu[0].pc, 0x0001);
    game.make_move(PlayerMove::Move(MoveDir::Right));
    assert_eq!(game.cpu[0].pc, 0x0001);
}

#[test]
fn compare_sets_compare_register() {
    for (data, expected) in [(5u8, 0u8), (6, 1), (4, 0xff), (0, 0xff), (255, 1)] {
        let mut game = game_with(b"@\nc\x05");
        game.cpu[0].pc = 0x0001;
        game.cpu[0].set_register(RegisterId::Data, data);
        game.make_move(PlayerMove::Move(MoveDir::Right));
        assert_eq!(register(&game, RegisterId::Compare), expected);
        assert_eq!(register(&game, RegisterId::Data), data);
        assert_eq!(game.cpu[0].pc, 0x0002);
    }
}

#[test]
fn conditional_jumps_test_compare_register() {
    // (opcode, compare value, jumps)
    let cases = [
        (b'e', 0u8, true),
        (b'e', 1, false),
        (b'e', 0xff, false),
        (b'g', 1, true),
        (b'g', 0, false),
        (b'g', 0xff, false),
        (b'l', 0xff, true),
        (b'l', 2, true),
        (b'l', 1, false),
        (b'l', 0, false),
    ];
    for (opcode, compare, jumps) in cases {
        let mut game = game_with(&[b'@', b'\n', opcode, 0x01, 0x00]);
        game.cpu[0].pc = 0x0001;
        game.cpu[0].set_register(RegisterId::Compare, compare);
        game.make_move(PlayerMove::Move(MoveDir::Right));
        assert_eq!(game.cpu[0].pc, if jumps { 0x0100 } else { 0x0002 });
    }
}

#[test]
fn add_wraps_round() {
    let mut game = game_with(b"@\na\xff");
    game.cpu[0].pc = 0x0001;
    game.cpu[0].set_register(RegisterId::Data, 2);
    game.make_move(PlayerMove::Move(MoveDir::Right));
    assert_eq!(register(&game, RegisterId::Data), 1);
    assert_eq!(game.cpu[0].pc, 0x0002);

    let mut game = game_with(b"@\na\x03");
    game.cpu[0].pc = 0x0001;
    game.cpu[0].set_register(RegisterId::Data, 2);
    game.make_move(PlayerMove::Move(MoveDir::Right));
    assert_eq!(register(&game, RegisterId::Data), 5);
}

#[test]
fn page_instruction_switches_page() {
    let mut game = game_with(b"@\np\x07");
    game.cpu[0].pc = 0x0001;
    game.make_move(PlayerMove::Move(MoveDir::Right));
    assert_eq!(register(&game, RegisterId::Page), 7);
    assert_eq!(game.player_page, 7);
    assert!(game.visited_pages.get(7));
    assert!(game.visited_pages.get(DEFAULT_PAGE));
    assert!(game.page_instruction_executed);
    assert_eq!(game.cpu[0].pc, 0x0002);
    // page 7 does not exist: it reads as blank, but for the player
    assert_eq!(game.effective_value(game.current_page(), V2::make(0, 1)), 0);
    assert_eq!(game.effective_value(game.current_page(), V2::make(1, 0)), 0x40);
}

#[test]
fn page_instruction_can_be_switched_off() {
    let mut game = game_with(b"@\np\x07");
    game.game_rules.page_instruction = false;
    game.cpu[0].pc = 0x0001;
    game.make_move(PlayerMove::Move(MoveDir::Right));
    assert_eq!(register(&game, RegisterId::Page), DEFAULT_PAGE);
    assert_eq!(game.player_page, DEFAULT_PAGE);
    assert!(!game.page_instruction_executed);
    assert_eq!(game.cpu[0].pc, 0x0002);
}

#[test]
fn program_counter_saturates() {
    let mut grid = ByteGrid::from_raw_str(b"@");
    grid.set(0xffff, b'a');
    let mut game = GamePlayState::from_grid(grid);
    game.cpu[0].pc = 0xffff;
    game.cpu[0].set_register(RegisterId::Data, 3);
    assert_eq!(game.read_instruction(0xffff, DEFAULT_PAGE), Instruction::Add(0));
    game.make_move(PlayerMove::Move(MoveDir::Right));
    assert_eq!(game.cpu[0].pc, 0xffff);
    assert_eq!(register(&game, RegisterId::Data), 3);
}

#[test]
fn operands_past_the_edge_read_zero() {
    let mut grid = ByteGrid::new();
    grid.set_xy(254, 3, b'j');
    grid.set_xy(255, 3, 0x12);
    grid.set_xy(0, 3, 0x99);
    grid.set_xy(255, 4, b'j');
    grid.set_xy(0, 4, 0x99);
    grid.set_xy(255, 5, b'c');
    grid.set_xy(253, 6, b's');
    grid.set_xy(254, 6, 0x01);
    grid.set_xy(255, 6, 0x02);
    let game = GamePlayState::from_grid(grid);
    assert_eq!(game.read_instruction(joinu8(254, 3), DEFAULT_PAGE), Instruction::Jump(0x1200));
    assert_eq!(game.read_instruction(joinu8(255, 4), DEFAULT_PAGE), Instruction::Jump(0));
    assert_eq!(game.read_instruction(joinu8(255, 5), DEFAULT_PAGE), Instruction::Compare(0));
    assert_eq!(game.read_instruction(joinu8(253, 6), DEFAULT_PAGE), Instruction::Swap(0x0102));
}

#[test]
fn every_opcode_decodes() {
    let game = game_with(b"@\nj\x01\x02\ns\x01\x02\nc\x01\x02\ne\x01\x02\nl\x01\x02\ng\x01\x02\na\x01\x02\np\x01\x02\nx\x01\x02");
    let expected = [
        Instruction::Jump(0x0102),
        Instruction::Swap(0x0102),
        Instruction::Compare(1),
        Instruction::JumpEqual(0x0102),
        Instruction::JumpLess(0x0102),
        Instruction::JumpGreater(0x0102),
        Instruction::Add(1),
        Instruction::Page(1),
        Instruction::NoOp,
    ];
    for (i, instr) in expected.iter().enumerate() {
        assert_eq!(game.read_instruction(1 + i as u16, DEFAULT_PAGE), *instr);
    }
}

#[test]
fn instruction_range_spans_rows_without_gap() {
    let game = game_with(b"@\nj\x00\x00\ns\x00\x00\na\x01\n\nj\x00\x00");
    assert_eq!(game.instruction_range(0x0000), None);
    assert_eq!(game.instruction_range(0x0001), Some((1, 3)));
    assert_eq!(game.instruction_range(0x0002), Some((1, 3)));
    assert_eq!(game.instruction_range(0x0003), Some((1, 3)));
    assert_eq!(game.instruction_range(0x0004), None);
    assert_eq!(game.instruction_range(0x0005), Some((5, 5)));
    assert_eq!(game.instruction_range(0x0105), None);
}

#[test]
fn instruction_range_reaches_both_edges() {
    let mut grid = ByteGrid::new();
    for row in 0u16..256 {
        grid.set(0x0700 + row, b'a');
    }
    let mut game = GamePlayState::from_grid(grid);
    game.player = PlayerPos::Pos(V2::make(0, 0));
    assert_eq!(game.instruction_range(0x0780), Some((0, 255)));
    assert_eq!(game.instruction_range(0x0700), Some((0, 255)));
    assert_eq!(game.instruction_range(0x07ff), Some((0, 255)));
}

#[test]
fn rotate_page_goes_to_next_visited_page() {
    let mut game = game_with(b"@");
    game.pages.insert(5, PageState::new());
    game.pages.insert(0x50, PageState::new());
    game.make_move(PlayerMove::RotatePage);
    assert_eq!(game.player_page, DEFAULT_PAGE);
    game.visited_pages.set(5, true);
    game.visited_pages.set(0x50, true);
    game.make_move(PlayerMove::RotatePage);
    assert_eq!(game.player_page, 0x50);
    game.make_move(PlayerMove::RotatePage);
    assert_eq!(game.player_page, 5);
    game.make_move(PlayerMove::RotatePage);
    assert_eq!(game.player_page, DEFAULT_PAGE);
    assert_eq!(game.cpu[0].pc, 0);
}

#[test]
fn rotate_page_obeys_rule() {
    let mut game = game_with(b"@");
    game.visited_pages.set(5, true);
    game.game_rules.rotate_page = PageRotationRule::Never;
    game.make_move(PlayerMove::RotatePage);
    assert_eq!(game.player_page, DEFAULT_PAGE);

    game.game_rules.rotate_page = PageRotationRule::AfterPageInstruction;
    game.make_move(PlayerMove::RotatePage);
    assert_eq!(game.player_page, DEFAULT_PAGE);
    game.page_instruction_executed = true;
    game.make_move(PlayerMove::RotatePage);
    assert_eq!(game.player_page, 5);
}

#[test]
fn rotate_page_not_from_register() {
    let mut game = game_with(b"@");
    game.visited_pages.set(5, true);
    game.player = PlayerPos::Register(0);
    game.make_move(PlayerMove::RotatePage);
    assert_eq!(game.player_page, DEFAULT_PAGE);
    assert_eq!(game.player, PlayerPos::Register(0));
}

#[test]
fn player_moves_through_registers() {
    let mut game = game_with(b"@");
    game.player = PlayerPos::Register(0);
    // left and right do nothing on registers, up from the first neither
    for dir in [MoveDir::Left, MoveDir::Right, MoveDir::Up] {
        game.make_move(PlayerMove::Move(dir));
        assert_eq!(game.player, PlayerPos::Register(0));
    }
    // the page register holds 0x42, whose player bit is set: blocked
    game.make_move(PlayerMove::Move(MoveDir::Down));
    assert_eq!(game.player, PlayerPos::Register(0));
    game.cpu[0].set_register(RegisterId::Page, 0x02);
    game.make_move(PlayerMove::Move(MoveDir::Down));
    assert_eq!(game.player, PlayerPos::Register(1));
    assert_eq!(game.player_page, 0x42);
    assert!(game.visited_pages.get(0x42));
    // the compare register holds 0xff: blocked
    game.make_move(PlayerMove::Move(MoveDir::Down));
    assert_eq!(game.player, PlayerPos::Register(1));
    game.cpu[0].set_register(RegisterId::Compare, 0x01);
    game.make_move(PlayerMove::Move(MoveDir::Down));
    assert_eq!(game.player, PlayerPos::Register(2));
    assert_eq!(game.player_page, 0x02);
    assert_eq!(register(&game, RegisterId::Compare), 0x41);
    // there is no register below the last
    game.make_move(PlayerMove::Move(MoveDir::Down));
    assert_eq!(game.player, PlayerPos::Register(2));
}

#[test]
fn message_trigger_hands_out_its_text() {
    let mut game = game_with(b"@");
    let page = game.pages.get_mut(&DEFAULT_PAGE).unwrap();
    page.triggers.insert(
        0x0100,
        Trigger {
            pos: V2::make(1, 0),
            effect: TriggerKind::Message("hello".to_owned()),
            one_time: false,
            triggered: false,
        },
    );
    page.triggers.insert(
        0x0200,
        Trigger {
            pos: V2::make(2, 0),
            effect: TriggerKind::Message("WIN".to_owned()),
            one_time: true,
            triggered: false,
        },
    );
    assert_eq!(
        game.make_move(PlayerMove::Move(MoveDir::Right)),
        Some("hello".to_owned())
    );
    assert!(!game.end_of_level);
    assert_eq!(
        game.make_move(PlayerMove::Move(MoveDir::Right)),
        Some("WIN".to_owned())
    );
    assert!(game.end_of_level);
    assert_eq!(game.make_move(PlayerMove::Move(MoveDir::Left)), Some("hello".to_owned()));
    assert_eq!(game.make_move(PlayerMove::Move(MoveDir::Right)), None);
}

#[test]
fn end_of_level_trigger_ends_the_level() {
    let mut game = game_with(b"@");
    game.pages.get_mut(&DEFAULT_PAGE).unwrap().triggers.insert(
        0x0001,
        Trigger {
            pos: V2::make(0, 1),
            effect: TriggerKind::EndOfLevel,
            one_time: true,
            triggered: false,
        },
    );
    assert_eq!(game.make_move(PlayerMove::Move(MoveDir::Right)), None);
    assert!(!game.end_of_level);
    game.make_move(PlayerMove::Move(MoveDir::Left));
    game.make_move(PlayerMove::Move(MoveDir::Down));
    assert!(game.end_of_level);
}

#[test]
fn set_pc_trigger_resets_registers_by_rule() {
    for reset in [true, false] {
        let mut game = game_with(b"@");
        game.game_rules.reset_registers_on_trigger = reset;
        game.cpu[0].set_register(RegisterId::Data, 7);
        game.cpu[0].set_register(RegisterId::Compare, 1);
        game.pages.get_mut(&DEFAULT_PAGE).unwrap().triggers.insert(
            0x0100,
            Trigger {
                pos: V2::make(1, 0),
                effect: TriggerKind::SetPC(0x2020),
                one_time: true,
                triggered: false,
            },
        );
        game.make_move(PlayerMove::Move(MoveDir::Right));
        assert_eq!(game.cpu[0].pc, 0x2020);
        assert_eq!(register(&game, RegisterId::Data), if reset { 0 } else { 7 });
        assert_eq!(register(&game, RegisterId::Compare), if reset { 0xff } else { 1 });
    }
}

#[test]
fn trigger_fires_on_blocked_move_too() {
    let mut game = game_with(b"@\xff");
    game.pages.get_mut(&DEFAULT_PAGE).unwrap().triggers.insert(
        0x0000,
        Trigger {
            pos: V2::make(0, 0),
            effect: TriggerKind::SetPC(0x0303),
            one_time: true,
            triggered: false,
        },
    );
    game.make_move(PlayerMove::Move(MoveDir::Right));
    assert_eq!(game.player, PlayerPos::Pos(V2::make(0, 0)));
    assert_eq!(game.cpu[0].pc, 0x0303);
}

#[test]
fn apply_triggers_alone() {
    let mut game = game_with(b"@");
    assert_eq!(game.apply_triggers(), None);
    game.pages.get_mut(&DEFAULT_PAGE).unwrap().triggers.insert(
        0x0000,
        Trigger {
            pos: V2::make(0, 0),
            effect: TriggerKind::Message("once".to_owned()),
            one_time: true,
            triggered: false,
        },
    );
    assert_eq!(game.apply_triggers(), Some("once".to_owned()));
    assert_eq!(game.apply_triggers(), None);
    assert!(game.current_page().triggers.get(&0).unwrap().triggered);
}

#[test]
fn cpu_sleeps_when_player_is_on_another_page() {
    let mut game = game_with(b"@\nj\x12\x34");
    game.cpu[0].pc = 0x0001;
    game.player_page = 3;
    game.make_move(PlayerMove::Move(MoveDir::Right));
    assert_eq!(game.cpu[0].pc, 0x0001);
    assert!(game.visited_pages.get(3));
    game.player_page = DEFAULT_PAGE;
    game.make_move(PlayerMove::Move(MoveDir::Right));
    assert_eq!(game.cpu[0].pc, 0x1234);
}

#[test]
fn swap_takes_the_player_into_the_data_register_and_back() {
    let mut game = game_with(b"@\ns\x00\x00");
    game.game_rules.wrap_mode = WrapingMode::Block;
    game.cpu[0].pc = 0x0001;
    game.cpu[0].set_register(RegisterId::Data, 3);
    // a blocked step: the player waits at (0, 0) while the CPU swaps that cell
    game.make_move(PlayerMove::Move(MoveDir::Up));
    assert_eq!(game.player, PlayerPos::Register(0));
    assert_eq!(game.pages.get(&DEFAULT_PAGE).unwrap().memory.get(0), 3);
    assert_eq!(register(&game, RegisterId::Data), 0x40);
    game.cpu[0].pc = 0x0001;
    game.make_move(PlayerMove::Move(MoveDir::Up));
    assert_eq!(game.player, PlayerPos::Pos(V2::make(0, 0)));
    assert_eq!(game.pages.get(&DEFAULT_PAGE).unwrap().memory.get(0), 0);
    assert_eq!(register(&game, RegisterId::Data), 3);
}

#[test]
fn operand_addresses_of_listed_instructions() {
    let mut game = game_with(b"@\nj\x00\x05\ns\x01\x02\na\x01\n\nj\x00\x07");
    assert_eq!(game.operand_addresses(), Vec::<u16>::new());
    game.cpu[0].pc = 0x0002;
    assert_eq!(game.operand_addresses(), vec![0x0005, 0x0102]);
    game.cpu[0].pc = 0x0005;
    assert_eq!(game.operand_addresses(), vec![0x0007]);
    game.cpu[0].pc = 0x0004;
    assert_eq!(game.operand_addresses(), Vec::<u16>::new());
}
