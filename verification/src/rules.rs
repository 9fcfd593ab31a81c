//! The rules of a level, the moves of the player and the wrap modes.

use crate::page::{in_grid, joinu8, low_byte, pos_of_addr, splitu16};
use crate::vecmath::V2;
use vstd::prelude::*;

verus! {

/// When the player may rotate through the visited pages.
#[derive(Debug, PartialEq, Eq, Copy, Clone, Structural)]
pub enum PageRotationRule {
    Always,
    Never,
    AfterPageInstruction,
}

impl Default for PageRotationRule {
    fn default() -> (r: PageRotationRule)
        ensures
            r == PageRotationRule::Always,
    {
        PageRotationRule::Always
    }
}

/// What happens to a step that leaves the grid.
#[derive(Debug, PartialEq, Eq, Copy, Clone, Structural)]
pub enum WrapingMode {
    /// The step is not taken.
    Block,
    /// Column and row each wrap round on their own.
    WrapLine,
    /// The packed address wraps round: past the last row comes the first row
    /// of the next column.
    WrapGrid,
}

impl Default for WrapingMode {
    fn default() -> (r: WrapingMode)
        ensures
            r == WrapingMode::Block,
    {
        WrapingMode::Block
    }
}

/// The rules of a level.
#[derive(Debug, PartialEq, Eq, Copy, Clone, Structural)]
pub struct GameRules {
    pub wrap_mode: WrapingMode,
    pub reset_registers_on_trigger: bool,
    pub page_instruction: bool,
    pub rotate_page: PageRotationRule,
}

impl GameRules {
    /// The rules of a level that states none.
    pub open spec fn standard() -> GameRules {
        GameRules {
            wrap_mode: WrapingMode::Block,
            reset_registers_on_trigger: true,
            page_instruction: true,
            rotate_page: PageRotationRule::Always,
        }
    }

    /// The rules of a level that states none.
    pub fn new() -> (r: GameRules)
        ensures
            r == GameRules::standard(),
    {
        GameRules {
            wrap_mode: WrapingMode::default(),
            reset_registers_on_trigger: GameRules::default_reset_registers_on_trigger(),
            page_instruction: GameRules::page_instruction_default(),
            rotate_page: PageRotationRule::default(),
        }
    }

    pub fn default_reset_registers_on_trigger() -> (r: bool)
        ensures
            r,
    {
        true
    }

    pub fn page_instruction_default() -> (r: bool)
        ensures
            r,
    {
        true
    }
}

impl Default for GameRules {
    fn default() -> (r: GameRules)
        ensures
            r == GameRules::standard(),
    {
        GameRules::new()
    }
}

/// A direction of movement. Up and down change the row, left and right the
/// column.
#[derive(Debug, PartialEq, Eq, Copy, Clone, Structural)]
pub enum MoveDir {
    Up,
    Left,
    Down,
    Right,
}

/// What the player can do in one turn.
#[derive(Debug, PartialEq, Eq, Copy, Clone, Structural)]
pub enum PlayerMove {
    Move(MoveDir),
    RotatePage,
}

/// The change of column that a direction stands for.
pub open spec fn dir_dx(d: MoveDir) -> int {
    match d {
        MoveDir::Left => -1,
        MoveDir::Right => 1,
        _ => 0,
    }
}

/// The change of row that a direction stands for.
pub open spec fn dir_dy(d: MoveDir) -> int {
    match d {
        MoveDir::Up => -1,
        MoveDir::Down => 1,
        _ => 0,
    }
}

/// The cell that a step from `p0` aims at.
pub open spec fn step_spec(p0: V2, d: MoveDir, mode: WrapingMode) -> V2 {
    match mode {
        WrapingMode::Block => {
            let tp = V2 { x: (p0.x + dir_dx(d)) as i32, y: (p0.y + dir_dy(d)) as i32 };
            if in_grid(tp) {
                tp
            } else {
                p0
            }
        },
        WrapingMode::WrapLine => V2 {
            x: ((p0.x + dir_dx(d)) % 256) as i32,
            y: ((p0.y + dir_dy(d)) % 256) as i32,
        },
        WrapingMode::WrapGrid => pos_of_addr(wrap_addr(p0.x * 256 + p0.y, dir_delta(d))),
    }
}

/// The change of the packed address that a direction stands for.
pub open spec fn dir_delta(d: MoveDir) -> int {
    256 * dir_dx(d) + dir_dy(d)
}

/// The packed address `delta` cells further on, wrapping round.
pub open spec fn wrap_addr(addr: int, delta: int) -> u16 {
    ((addr + delta) % 65536) as u16
}

/// A step along the packed addresses, wrapping round at both ends.
fn step_wrap_grid(p0: V2, d: MoveDir) -> (r: V2)
    requires
        in_grid(p0),
    ensures
        r == pos_of_addr(wrap_addr(p0.x * 256 + p0.y, dir_delta(d))),
        in_grid(r),
{
    let joined: u16 = joinu8(low_byte(p0.x), low_byte(p0.y));
    assert(joined == p0.x * 256 + p0.y);
    let add: u16 = match d {
        MoveDir::Up => 0xffffu16,
        MoveDir::Left => 0xff00u16,
        MoveDir::Down => 0x0001u16,
        MoveDir::Right => 0x0100u16,
    };
    assert(add == (65536 + dir_delta(d)) % 65536);
    let sum: u16 = ((joined as u32 + add as u32) % 65536) as u16;
    assert(sum == wrap_addr(joined as int, dir_delta(d)));
    splitu16(sum)
}

/// The cell that a step from `p0` in direction `d` aims at under the given
/// wrap mode.
pub fn step(p0: V2, d: MoveDir, mode: WrapingMode) -> (r: V2)
    requires
        in_grid(p0),
    ensures
        r == step_spec(p0, d, mode),
        in_grid(r),
{
    if mode == WrapingMode::WrapGrid {
        return step_wrap_grid(p0, d);
    }
    let dp = match d {
        MoveDir::Up => V2 { x: 0, y: -1 },
        MoveDir::Left => V2 { x: -1, y: 0 },
        MoveDir::Down => V2 { x: 0, y: 1 },
        MoveDir::Right => V2 { x: 1, y: 0 },
    };
    let tp = p0 + dp;
    assert(tp.x == p0.x + dir_dx(d) && tp.y == p0.y + dir_dy(d));
    if tp.x >= 0 && tp.x <= 255 && tp.y >= 0 && tp.y <= 255 {
        tp
    } else {
        match mode {
            WrapingMode::Block => p0,
            _ => V2 { x: (tp.x + 256) % 256, y: (tp.y + 256) % 256 },
        }
    }
}

} // verus!
