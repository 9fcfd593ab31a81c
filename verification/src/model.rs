//! The game as a mathematical value, and its transitions as functions.

use crate::bytegrid::GRID_CELLS;
use crate::cpu::{
    decode_spec, register_effective, with_register, CpuModel, Instruction, PlayerPos, RegisterId,
};
use crate::page::{addr_of_pos, blank_page, in_grid, pos_of_addr, PageModel, Trigger, TriggerKind};
use crate::rules::{step_spec, GameRules, MoveDir, PageRotationRule, PlayerMove};
use crate::vecmath::V2;
use vstd::prelude::*;

verus! {

/// The text of the message that ends the level.
pub open spec fn win_text() -> Seq<char> {
    seq!['W', 'I', 'N']
}

/// The register that a step up or down from register `r` aims at, in a
/// register file of `count` registers.
pub open spec fn register_target(r: int, dir: MoveDir, count: int) -> int {
    if dir == MoveDir::Up && r > 0 {
        r - 1
    } else if dir == MoveDir::Down && r + 1 < count {
        r + 1
    } else {
        r
    }
}

/// The first visited page among `page + from`, `page + from + 1`, ... up to
/// `page + 255`, page numbers wrapping round; `page` itself if there is none.
pub open spec fn next_visited(visited: Set<u8>, page: u8, from: int) -> u8
    decreases 256 - from,
{
    if from >= 256 || from < 0 {
        page
    } else if visited.contains(((page + from) % 256) as u8) {
        ((page + from) % 256) as u8
    } else {
        next_visited(visited, page, from + 1)
    }
}

/// The program counter after an instruction that does not jump: one more,
/// and never past the last address.
pub open spec fn pc_after(pc: u16) -> u16 {
    if pc < 0xffff {
        (pc + 1) as u16
    } else {
        pc
    }
}

/// The value that comparing `data` with `v` leaves in the compare register.
pub open spec fn compare_result(data: u8, v: u8) -> u8 {
    if data > v {
        1
    } else if data < v {
        0xff
    } else {
        0
    }
}

/// The state of a game.
pub struct GameModel {
    pub player: PlayerPos,
    pub player_page: u8,
    pub player_offset: u8,
    pub pages: Map<u8, PageModel>,
    pub cpu: Seq<CpuModel>,
    pub visited: Set<u8>,
    pub rules: GameRules,
    pub page_instruction_executed: bool,
    pub end_of_level: bool,
}

impl GameModel {
    /// The player's bit is one of the eight of a byte, there is a CPU, every
    /// CPU has its three registers, every page has all its cells, and the
    /// player is on a cell of the grid or on a register of the first CPU.
    pub open spec fn wf(self) -> bool {
        &&& self.player_offset < 8
        &&& self.cpu.len() >= 1
        &&& forall|i: int| 0 <= i < self.cpu.len() ==> (#[trigger] self.cpu[i]).wf()
        &&& forall|id: u8| #[trigger]
            self.pages.contains_key(id) ==> self.pages[id].memory.len() == GRID_CELLS
        &&& match self.player {
            PlayerPos::Pos(p) => in_grid(p),
            PlayerPos::Register(r) => r < self.cpu[0].registers.len(),
        }
    }

    /// The bit that marks the player.
    pub open spec fn mask(self) -> u8 {
        1u8 << self.player_offset
    }

    /// Whether a cell or register that shows `v` can be entered: the player's
    /// bit is not set in it.
    pub open spec fn accessible(self, v: u8) -> bool {
        v & self.mask() == 0
    }

    /// The page with the given number; a page that the game does not have
    /// reads as blank.
    pub open spec fn page(self, id: u8) -> PageModel {
        if self.pages.contains_key(id) {
            self.pages[id]
        } else {
            blank_page()
        }
    }

    /// The page that the player is on.
    pub open spec fn current_page(self) -> PageModel {
        self.page(self.player_page)
    }

    /// What the cell at `p` of `page` shows: what it stores, with the
    /// player's bit set where the player stands at `p`.
    pub open spec fn effective_value(self, page: PageModel, p: V2) -> u8 {
        let stored = page.memory[addr_of_pos(p)];
        if self.player == PlayerPos::Pos(p) {
            stored | self.mask()
        } else {
            stored
        }
    }

    /// What a register of CPU `id` shows.
    pub open spec fn register_value(self, id: int, reg: RegisterId) -> u8 {
        register_effective(self.cpu[id].registers, reg.place(), self.player, self.mask())
    }

    /// What the cell `ahead` columns to the right of `p` shows to the decoder:
    /// zero past the edge of the grid.
    pub open spec fn operand(self, page: PageModel, p: V2, ahead: int) -> u8 {
        if p.x + ahead < 256 {
            self.effective_value(page, V2 { x: (p.x + ahead) as i32, y: p.y })
        } else {
            0
        }
    }

    /// The instruction at address `pc` of page `page_id`.
    pub open spec fn read_instruction(self, pc: u16, page_id: u8) -> Instruction {
        let page = self.page(page_id);
        let p = pos_of_addr(pc);
        decode_spec(
            self.effective_value(page, p),
            self.operand(page, p, 1),
            self.operand(page, p, 2),
        )
    }

    /// The game with the program counter of CPU `id` set.
    pub open spec fn with_pc(self, id: int, pc: u16) -> GameModel {
        GameModel {
            cpu: self.cpu.update(id, CpuModel { registers: self.cpu[id].registers, pc }),
            ..self
        }
    }

    /// The game with `value` stored in a register of CPU `id`.
    pub open spec fn with_reg(self, id: int, reg: RegisterId, value: u8) -> GameModel {
        GameModel {
            cpu: self.cpu.update(
                id,
                CpuModel {
                    registers: with_register(self.cpu[id].registers, reg.place(), value),
                    pc: self.cpu[id].pc,
                },
            ),
            ..self
        }
    }

    /// The game with the player on page `page`, which thereby is visited.
    pub open spec fn on_page(self, page: u8) -> GameModel {
        GameModel { player_page: page, visited: self.visited.insert(page), ..self }
    }

    /// The game after the player tried a step in direction `dir`.
    ///
    /// On the grid the step aims at the cell that the wrap mode gives, and is
    /// taken if that cell is accessible. On a register it aims at the register
    /// above or below, and is taken if that one is accessible; the player then
    /// is on the page that the page register shows.
    pub open spec fn move_player(self, dir: MoveDir) -> GameModel {
        match self.player {
            PlayerPos::Pos(v) => {
                let target = step_spec(v, dir, self.rules.wrap_mode);
                if self.accessible(self.effective_value(self.current_page(), target)) {
                    GameModel { player: PlayerPos::Pos(target), ..self }
                } else {
                    self
                }
            },
            PlayerPos::Register(r) => {
                let target = register_target(r as int, dir, self.cpu[0].registers.len() as int);
                if self.accessible(
                    register_effective(self.cpu[0].registers, target, self.player, self.mask()),
                ) {
                    let moved = GameModel { player: PlayerPos::Register(target as usize), ..self };
                    moved.on_page(moved.register_value(0, RegisterId::Page))
                } else {
                    self
                }
            },
        }
    }

    /// Whether the rules let the player rotate the page now.
    pub open spec fn may_rotate(self) -> bool {
        self.rules.rotate_page == PageRotationRule::Always || (self.rules.rotate_page
            == PageRotationRule::AfterPageInstruction && self.page_instruction_executed)
    }

    /// The game after the player asked for the next page: where the rules
    /// allow it and the player is on the grid, the player is on the next
    /// visited page.
    pub open spec fn rotate_page(self) -> GameModel {
        if self.may_rotate() && self.player is Pos {
            GameModel { player_page: next_visited(self.visited, self.player_page, 1), ..self }
        } else {
            self
        }
    }

    /// The trigger that fires where the player stands, if any: the active
    /// trigger of the player's page at the player's cell.
    pub open spec fn trigger_here(self) -> Option<Trigger> {
        match self.player {
            PlayerPos::Pos(pos) => {
                let key = addr_of_pos(pos) as u16;
                if self.pages.contains_key(self.player_page)
                    && self.pages[self.player_page].triggers.contains_key(key)
                    && self.pages[self.player_page].triggers[key].active() {
                    Some(self.pages[self.player_page].triggers[key])
                } else {
                    None
                }
            },
            PlayerPos::Register(_) => None,
        }
    }

    /// The game with the trigger at the player's cell marked as fired.
    pub open spec fn mark_fired(self) -> GameModel
        recommends
            self.trigger_here() is Some,
            self.player is Pos,
    {
        let key = addr_of_pos(self.player->Pos_0) as u16;
        let page = self.pages[self.player_page];
        let t = page.triggers[key];
        GameModel {
            pages: self.pages.insert(
                self.player_page,
                PageModel {
                    memory: page.memory,
                    triggers: page.triggers.insert(
                        key,
                        Trigger {
                            pos: t.pos,
                            effect: t.effect,
                            one_time: t.one_time,
                            triggered: true,
                        },
                    ),
                },
            ),
            ..self
        }
    }

    /// The game after the trigger where the player stands, if any, has fired.
    ///
    /// The trigger is marked as fired. One that sets the program counter does
    /// so on the first CPU, after the data register was set to 0 and the
    /// compare register to 0xff where the rules say so. One that ends the level
    /// does so, and so does the message `WIN`.
    pub open spec fn apply_triggers(self) -> GameModel {
        match self.trigger_here() {
            None => self,
            Some(t) => {
                let fired = self.mark_fired();
                match t.effect {
                    TriggerKind::SetPC(pc) => {
                        let reset = if self.rules.reset_registers_on_trigger {
                            fired.with_reg(0, RegisterId::Data, 0).with_reg(
                                0,
                                RegisterId::Compare,
                                0xff,
                            )
                        } else {
                            fired
                        };
                        reset.with_pc(0, pc)
                    },
                    TriggerKind::EndOfLevel => GameModel { end_of_level: true, ..fired },
                    TriggerKind::Message(m) => GameModel {
                        end_of_level: fired.end_of_level || m@ == win_text(),
                        ..fired
                    },
                }
            },
        }
    }

    /// The text of the message that the trigger where the player stands
    /// shows, if one fires and shows any.
    pub open spec fn message_here(self) -> Option<Seq<char>> {
        match self.trigger_here() {
            Some(t) => match t.effect {
                TriggerKind::Message(m) => Some(m@),
                _ => None,
            },
            None => None,
        }
    }

    /// The game after CPU `id` swapped its data register with the byte at
    /// `addr` of page `page_id`. A player on that cell of that page goes to the
    /// data register; a player on the data register goes to that cell and
    /// page. Nothing is swapped with a page that the game does not have.
    pub open spec fn swap(self, id: int, page_id: u8, addr: u16) -> GameModel {
        if self.pages.contains_key(page_id) {
            let page = self.pages[page_id];
            let data = RegisterId::Data.place() as usize;
            let swapped = GameModel {
                pages: self.pages.insert(
                    page_id,
                    PageModel {
                        memory: page.memory.update(
                            addr as int,
                            self.cpu[id].registers[data as int].value,
                        ),
                        triggers: page.triggers,
                    },
                ),
                ..self.with_reg(id, RegisterId::Data, page.memory[addr as int])
            };
            if self.player_page == page_id && self.player == PlayerPos::Pos(pos_of_addr(addr)) {
                GameModel { player: PlayerPos::Register(data), ..swapped }
            } else if self.player == PlayerPos::Register(data) {
                GameModel {
                    player: PlayerPos::Pos(pos_of_addr(addr)),
                    player_page: page_id,
                    ..swapped
                }
            } else {
                swapped
            }
        } else {
            self
        }
    }

    /// The game after CPU `id` has run the instruction at its program
    /// counter on the page that its page register shows.
    ///
    /// Where no instruction stands there, nothing changes. Any other
    /// instruction first moves the program counter on by one, then acts.
    pub open spec fn step_cpu(self, id: int) -> GameModel {
        let page_id = self.register_value(id, RegisterId::Page);
        let pc = self.cpu[id].pc;
        let compare_value = self.register_value(id, RegisterId::Compare);
        let data = self.register_value(id, RegisterId::Data);
        let next = self.with_pc(id, pc_after(pc));
        match self.read_instruction(pc, page_id) {
            Instruction::Swap(addr) => next.swap(id, page_id, addr),
            Instruction::Jump(target) => next.with_pc(id, target),
            Instruction::JumpEqual(target) => if compare_value == 0 {
                next.with_pc(id, target)
            } else {
                next
            },
            Instruction::JumpGreater(target) => if compare_value == 1 {
                next.with_pc(id, target)
            } else {
                next
            },
            Instruction::JumpLess(target) => if compare_value > 1 {
                next.with_pc(id, target)
            } else {
                next
            },
            Instruction::Compare(v) => next.with_reg(
                id,
                RegisterId::Compare,
                compare_result(data, v),
            ),
            Instruction::Page(v) => if self.rules.page_instruction {
                GameModel {
                    page_instruction_executed: true,
                    ..next.with_reg(id, RegisterId::Page, v).on_page(v)
                }
            } else {
                next
            },
            Instruction::Add(v) => next.with_reg(id, RegisterId::Data, ((data + v) % 256) as u8),
            Instruction::NoOp => self,
        }
    }

    /// Whether the first CPU runs after a move: the player is on the page
    /// that the CPU's page register shows.
    pub open spec fn in_step(self) -> bool {
        self.player_page == self.register_value(0, RegisterId::Page)
    }

    /// The game after the player's action alone, before triggers and CPU.
    pub open spec fn act(self, action: PlayerMove) -> GameModel {
        match action {
            PlayerMove::Move(dir) => self.move_player(dir),
            PlayerMove::RotatePage => self.rotate_page(),
        }
    }

    /// The game after one turn: the player's action, then the trigger at the
    /// player's cell, then, after a step and with the player on the CPU's
    /// page, one instruction of the first CPU. The page that the player ends
    /// on is visited.
    pub open spec fn make_move(self, action: PlayerMove) -> GameModel {
        let triggered = self.act(action).apply_triggers();
        let stepped = if action is Move && triggered.in_step() {
            triggered.step_cpu(0)
        } else {
            triggered
        };
        GameModel { visited: stepped.visited.insert(stepped.player_page), ..stepped }
    }

    /// The text of the message that a turn shows, if any.
    pub open spec fn move_message(self, action: PlayerMove) -> Option<Seq<char>> {
        self.act(action).message_here()
    }
}

} // verus!
