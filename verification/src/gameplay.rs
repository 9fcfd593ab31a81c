//! The state of a game and what one turn of the player does to it.

use crate::bytegrid::{Bits256, ByteGrid, GRID_CELLS};
use crate::cpu::{decode, registers_are, Instruction, PlayerPos, RegisterId, CPU};
use crate::game_laws::{blocked_turn, lemma_blocked_move_keeps_player, step_blocked};
use crate::model::GameModel;
use crate::page::{blank_page, in_grid, joinu16, splitu16, PageState, TriggerKind};
use crate::rules::{step, GameRules, MoveDir, PageRotationRule, PlayerMove};
use crate::vecmath::V2;
use std::collections::HashMap;
use vstd::prelude::*;

verus! {

broadcast use vstd::std_specs::hash::group_hash_axioms;

/// The byte that marks the player's start in a grid: the sign @.
pub const PLAYER_VAL: u8 = 0x40;

/// The bit that marks the player, unless a level says otherwise.
pub const PLAYER_OFFSET: u8 = 6;

/// The page that a level of one grid is loaded as.
pub const DEFAULT_PAGE: u8 = 0x42;

/// A game in play: the pages, the CPUs, where the player is, and the rules.
pub struct GamePlayState {
    pub player: PlayerPos,
    pub player_page: u8,
    pub player_offset: u8,
    pub pages: HashMap<u8, PageState>,
    pub cpu: Vec<CPU>,
    pub visited_pages: Bits256,
    pub game_rules: GameRules,
    /// Stands for every page that the game does not have. Always blank.
    pub null_page: PageState,
    pub page_instruction_executed: bool,
    pub end_of_level: bool,
}

impl View for GamePlayState {
    type V = GameModel;

    open spec fn view(&self) -> GameModel {
        GameModel {
            player: self.player,
            player_page: self.player_page,
            player_offset: self.player_offset,
            pages: self.pages@.map_values(|p: PageState| p@),
            cpu: self.cpu@.map_values(|c: CPU| c@),
            visited: self.visited_pages@,
            rules: self.game_rules,
            page_instruction_executed: self.page_instruction_executed,
            end_of_level: self.end_of_level,
        }
    }
}

impl GamePlayState {
    /// The page that stands for the pages that the game does not have is
    /// blank.
    pub open spec fn null_page_blank(&self) -> bool {
        self.null_page@ == blank_page()
    }

    /// The state that every function of the game keeps.
    pub open spec fn wf(&self) -> bool {
        self@.wf() && self.null_page_blank()
    }

    /// Every page of a game has all its cells.
    pub proof fn lemma_pages_full(&self)
        ensures
            forall|id: u8| #[trigger]
                self@.pages.contains_key(id) ==> self@.pages[id].memory.len() == GRID_CELLS,
    {
        assert forall|id: u8| #[trigger] self@.pages.contains_key(id) implies self@.pages[id].memory.len()
            == GRID_CELLS by {
            self.pages@[id].memory.lemma_view_len();
        }
    }

    /// A game without pages: the player at the first cell of page 0, one
    /// CPU, the rules of a level that states none.
    pub fn new() -> (r: GamePlayState)
        ensures
            r.wf(),
            r.player == PlayerPos::Pos(V2 { x: 0, y: 0 }),
            r.player_page == 0,
            r.player_offset == PLAYER_OFFSET,
            r@.pages == Map::<u8, crate::page::PageModel>::empty(),
            r@.cpu.len() == 1,
            r@.cpu[0].pc == 0,
            registers_are(r@.cpu[0].registers, 0, 0, 0xff),
            r@.visited == Set::<u8>::empty(),
            r@.rules == GameRules::standard(),
            !r@.page_instruction_executed,
            !r@.end_of_level,
    {
        let mut cpu: Vec<CPU> = Vec::new();
        cpu.push(CPU::new());
        let r = GamePlayState {
            player: PlayerPos::Pos(V2::new()),
            player_page: 0,
            player_offset: PLAYER_OFFSET,
            pages: HashMap::new(),
            cpu,
            game_rules: GameRules::new(),
            null_page: PageState::new(),
            visited_pages: Bits256::new(),
            page_instruction_executed: false,
            end_of_level: false,
        };
        assert(r@.pages =~= Map::<u8, crate::page::PageModel>::empty());
        r
    }

    /// The bit that marks the player.
    pub fn player_mask(&self) -> (r: u8)
        requires
            self.player_offset < 8,
        ensures
            r == self@.mask(),
    {
        1u8 << self.player_offset
    }

    /// Whether a cell or register that shows `p` can be entered.
    pub fn accessible(&self, p: u8) -> (r: bool)
        requires
            self.player_offset < 8,
        ensures
            r == self@.accessible(p),
    {
        (p & self.player_mask()) == 0
    }

    /// The page with the given number, or the blank page where the game has
    /// none.
    fn page_ref(&self, page_id: u8) -> (r: &PageState)
        requires
            self.null_page_blank(),
        ensures
            r@ == self@.page(page_id),
    {
        match self.pages.get(&page_id) {
            Some(page) => page,
            None => &self.null_page,
        }
    }

    /// The page that the player is on.
    pub fn current_page(&self) -> (r: &PageState)
        requires
            self.null_page_blank(),
        ensures
            r@ == self@.current_page(),
    {
        self.page_ref(self.player_page)
    }

    /// What the cell at `p` of `page` shows: what it stores, with the
    /// player's bit set where the player stands at `p`.
    pub fn effective_value(&self, page: &PageState, p: V2) -> (r: u8)
        requires
            self.player_offset < 8,
        ensures
            r == self@.effective_value(page@, p),
            r == if self.player == PlayerPos::Pos(p) {
                page@.memory[crate::page::addr_of_pos(p)] | self@.mask()
            } else {
                page@.memory[crate::page::addr_of_pos(p)]
            },
    {
        let v = page.memory.get(joinu16(p));
        if self.player == PlayerPos::Pos(p) {
            v | self.player_mask()
        } else {
            v
        }
    }

    /// The instruction at address `pc` of page `page_id`: the opcode there
    /// and the one or two bytes behind it in the same row of the text, each as
    /// the cell shows it, and zero past the edge of the grid.
    pub fn read_instruction(&self, pc: u16, page_id: u8) -> (r: Instruction)
        requires
            self.wf(),
        ensures
            r == self@.read_instruction(pc, page_id),
    {
        let page = self.page_ref(page_id);
        let p = splitu16(pc);
        let instr = self.effective_value(page, p);
        let first = if p.x + 1 < 256 {
            self.effective_value(page, V2::make(p.x + 1, p.y))
        } else {
            0
        };
        let second = if p.x + 2 < 256 {
            self.effective_value(page, V2::make(p.x + 2, p.y))
        } else {
            0
        };
        decode(instr, first, second)
    }

    /// The instruction at row `row` of the column of address `pc`, on the
    /// player's page.
    pub open spec fn instruction_at(&self, pc: u16, row: int) -> Instruction {
        self@.read_instruction((pc as int / 256 * 256 + row) as u16, self.player_page)
    }

    /// The instruction at row `row` of the column of address `pc`, on the
    /// player's page.
    fn instruction_in_row(&self, pc: u16, row: i32) -> (r: Instruction)
        requires
            self.wf(),
            0 <= row <= 255,
        ensures
            r == self.instruction_at(pc, row as int),
    {
        let pc_v = splitu16(pc);
        let addr = joinu16(V2::make(pc_v.x, row));
        assert(addr == pc as int / 256 * 256 + row);
        self.read_instruction(addr, self.player_page)
    }

    /// The rows around address `pc`, in its column of the player's page, that
    /// hold instructions without a gap; nothing where `pc` holds none.
    pub fn instruction_range(&self, pc: u16) -> (r: Option<(u8, u8)>)
        requires
            self.wf(),
        ensures
            r is None <==> self@.read_instruction(pc, self.player_page) == Instruction::NoOp,
            match r {
                Some((top, bottom)) => {
                    &&& top <= pc % 256 <= bottom
                    &&& forall|row: int|
                        top <= row <= bottom ==> #[trigger] self.instruction_at(pc, row)
                            != Instruction::NoOp
                    &&& top > 0 ==> self.instruction_at(pc, top - 1) == Instruction::NoOp
                    &&& bottom < 255 ==> self.instruction_at(pc, bottom + 1) == Instruction::NoOp
                },
                None => true,
            },
    {
        let pc_v = splitu16(pc);
        if self.read_instruction(pc, self.player_page) == Instruction::NoOp {
            return None;
        }
        assert(pc as int / 256 * 256 + pc as int % 256 == pc);
        assert(self.instruction_at(pc, pc as int % 256) != Instruction::NoOp);
        let start: i32 = pc_v.y;
        let mut top: i32 = start;
        while top > 0 && self.instruction_in_row(pc, top - 1) != Instruction::NoOp
            invariant
                self.wf(),
                0 <= top <= start <= 255,
                forall|row: int|
                    top <= row <= start ==> #[trigger] self.instruction_at(pc, row)
                        != Instruction::NoOp,
            decreases top,
        {
            top -= 1;
        }
        let mut bottom: i32 = start;
        while bottom < 255 && self.instruction_in_row(pc, bottom + 1) != Instruction::NoOp
            invariant
                self.wf(),
                0 <= start <= bottom <= 255,
                forall|row: int|
                    start <= row <= bottom ==> #[trigger] self.instruction_at(pc, row)
                        != Instruction::NoOp,
            decreases 255 - bottom,
        {
            bottom += 1;
        }
        Some((top as u8, bottom as u8))
    }

    /// Whether row `row` belongs to the rows around address `pc`, in its
    /// column of the player's page, that hold instructions without a gap.
    pub open spec fn listed(&self, pc: u16, row: int) -> bool {
        &&& 0 <= row <= 255
        &&& forall|q: int|
            (row <= q <= pc as int % 256 || pc as int % 256 <= q <= row)
                ==> #[trigger] self.instruction_at(pc, q) != Instruction::NoOp
    }

    /// Whether an instruction among those listed around `pc` names the
    /// address `addr`.
    pub open spec fn names_address(&self, pc: u16, addr: u16) -> bool {
        exists|row: int|
            self.listed(pc, row) && (#[trigger] self.instruction_at(pc, row)).address() == Some(
                addr,
            )
    }

    /// The addresses that the instructions around the program counter of the
    /// first CPU name: every such address, and nothing else.
    pub fn operand_addresses(&self) -> (r: Vec<u16>)
        requires
            self.wf(),
        ensures
            forall|addr: u16|
                r@.contains(addr) <==> self.names_address(self@.cpu[0].pc, addr),
    {
        let pc = self.cpu[0].pc;
        let mut result: Vec<u16> = Vec::new();
        match self.instruction_range(pc) {
            None => {
                proof {
                    assert(pc as int / 256 * 256 + pc as int % 256 == pc);
                    assert(self.instruction_at(pc, pc as int % 256) == Instruction::NoOp);
                    assert forall|addr: u16| !self.names_address(pc, addr) by {
                        if self.names_address(pc, addr) {
                            let row = choose|row: int|
                                self.listed(pc, row) && (#[trigger] self.instruction_at(
                                    pc,
                                    row,
                                )).address() == Some(addr);
                            assert(self.instruction_at(pc, pc as int % 256) != Instruction::NoOp);
                        }
                    }
                }
            },
            Some((top, bottom)) => {
                proof {
                    assert forall|row: int| self.listed(pc, row) <==> top <= row <= bottom by {
                        if top <= row <= bottom {
                            assert(self.listed(pc, row));
                        } else if 0 <= row < top {
                            assert(self.instruction_at(pc, top - 1) == Instruction::NoOp);
                        } else if bottom < row <= 255 {
                            assert(self.instruction_at(pc, bottom + 1) == Instruction::NoOp);
                        }
                    }
                }
                let mut row: i32 = top as i32;
                while row <= bottom as i32
                    invariant
                        self.wf(),
                        top <= row <= bottom + 1,
                        forall|addr: u16|
                            result@.contains(addr) <==> exists|q: int|
                                top <= q < row && (#[trigger] self.instruction_at(
                                    pc,
                                    q,
                                )).address() == Some(addr),
                    decreases bottom + 1 - row,
                {
                    let instr = self.instruction_in_row(pc, row);
                    let ghost before = result@;
                    match instr.mem_operand() {
                        Some(p) => {
                            result.push(p);
                            proof {
                                assert forall|addr: u16|
                                    result@.contains(addr) <==> exists|q: int|
                                        top <= q < row + 1 && (#[trigger] self.instruction_at(
                                            pc,
                                            q,
                                        )).address() == Some(addr) by {
                                    if result@.contains(addr) {
                                        let i = choose|i: int|
                                            0 <= i < result@.len() && result@[i] == addr;
                                        if i < before.len() {
                                            assert(before[i] == addr);
                                            assert(before.contains(addr));
                                        } else {
                                            assert(self.instruction_at(pc, row as int).address()
                                                == Some(addr));
                                        }
                                    }
                                    if exists|q: int|
                                        top <= q < row + 1 && (#[trigger] self.instruction_at(
                                            pc,
                                            q,
                                        )).address() == Some(addr) {
                                        let q = choose|q: int|
                                            top <= q < row + 1 && (#[trigger] self.instruction_at(
                                                pc,
                                                q,
                                            )).address() == Some(addr);
                                        if q < row {
                                            assert(before.contains(addr));
                                            let i = choose|i: int|
                                                0 <= i < before.len() && before[i] == addr;
                                            assert(result@[i] == addr);
                                        } else {
                                            assert(result@[before.len() as int] == addr);
                                        }
                                    }
                                }
                            }
                        },
                        None => {
                            proof {
                                assert forall|addr: u16|
                                    result@.contains(addr) <==> exists|q: int|
                                        top <= q < row + 1 && (#[trigger] self.instruction_at(
                                            pc,
                                            q,
                                        )).address() == Some(addr) by {
                                    if exists|q: int|
                                        top <= q < row + 1 && (#[trigger] self.instruction_at(
                                            pc,
                                            q,
                                        )).address() == Some(addr) {
                                        let q = choose|q: int|
                                            top <= q < row + 1 && (#[trigger] self.instruction_at(
                                                pc,
                                                q,
                                            )).address() == Some(addr);
                                        assert(q < row);
                                    }
                                }
                            }
                        },
                    }
                    row += 1;
                }
            },
        }
        result
    }

    /// Stores `value` in a register of CPU `id`.
    pub(crate) fn set_reg(&mut self, id: usize, reg: RegisterId, value: u8)
        requires
            old(self).wf(),
            id < old(self).cpu.len(),
        ensures
            final(self).wf(),
            final(self)@ == old(self)@.with_reg(id as int, reg, value),
    {
        self.cpu[id].set_register(reg, value);
        assert(self@.cpu =~= old(self)@.with_reg(id as int, reg, value).cpu);
    }

    /// Sets the program counter of CPU `id`.
    pub(crate) fn set_pc(&mut self, id: usize, pc: u16)
        requires
            old(self).wf(),
            id < old(self).cpu.len(),
        ensures
            final(self).wf(),
            final(self)@ == old(self)@.with_pc(id as int, pc),
    {
        self.cpu[id].pc = pc;
        assert(self@.cpu =~= old(self)@.with_pc(id as int, pc).cpu);
    }

    /// Sets the data register of the first CPU to 0 and its compare register
    /// to 0xff.
    fn reset_registers(&mut self)
        requires
            old(self).wf(),
        ensures
            final(self).wf(),
            final(self)@ == old(self)@.with_reg(0, RegisterId::Data, 0).with_reg(
                0,
                RegisterId::Compare,
                0xff,
            ),
    {
        self.set_reg(0, RegisterId::Data, 0);
        self.set_reg(0, RegisterId::Compare, 0xff);
    }

    /// Puts the player on page `page`, which thereby is visited.
    fn change_player_page(&mut self, page: u8)
        requires
            old(self).wf(),
        ensures
            final(self).wf(),
            final(self)@ == old(self)@.on_page(page),
    {
        self.player_page = page;
        self.visited_pages.set(page, true);
    }

    /// Stores `page` in the page register of CPU `id` and puts the player on
    /// that page.
    fn change_cpu_page(&mut self, id: usize, page: u8)
        requires
            old(self).wf(),
            id < old(self).cpu.len(),
        ensures
            final(self).wf(),
            final(self)@ == old(self)@.with_reg(id as int, RegisterId::Page, page).on_page(page),
    {
        self.set_reg(id, RegisterId::Page, page);
        self.change_player_page(page);
    }

    /// Starts the game on page `page`: the player is there, the first CPU's
    /// page register holds it, and it alone is visited.
    pub fn set_initial_page(&mut self, page: u8)
        requires
            old(self).wf(),
        ensures
            final(self).wf(),
            final(self)@ == (GameModel {
                player_page: page,
                visited: Set::<u8>::empty().insert(page),
                ..old(self)@.with_reg(0, RegisterId::Page, page)
            }),
    {
        self.player_page = page;
        self.set_reg(0, RegisterId::Page, page);
        self.visited_pages.clear();
        self.visited_pages.set(page, true);
    }

    /// Puts the player on the next visited page, where the rules allow it
    /// and the player is on the grid. The CPU does not run after it.
    fn rotate_page(&mut self) -> (r: bool)
        requires
            old(self).wf(),
        ensures
            !r,
            final(self).wf(),
            final(self)@ == old(self)@.rotate_page(),
    {
        if !(self.game_rules.rotate_page == PageRotationRule::Always || (
        self.game_rules.rotate_page == PageRotationRule::AfterPageInstruction
            && self.page_instruction_executed)) {
            return false;
        }
        match self.player {
            PlayerPos::Pos(_) => {},
            _ => {
                return false;
            },
        }
        let mut i: u16 = 1;
        while i <= 255
            invariant
                1 <= i <= 256,
                *self == *old(self),
                old(self).wf(),
                old(self)@.may_rotate(),
                old(self).player is Pos,
                crate::model::next_visited(self@.visited, self.player_page, 1)
                    == crate::model::next_visited(self@.visited, self.player_page, i as int),
            decreases 256 - i,
        {
            let target: u8 = ((self.player_page as u16 + i) % 256) as u8;
            if self.visited_pages.get(target) {
                self.player_page = target;
                return false;
            }
            i += 1;
        }
        false
    }

    /// Tries a step of the player in direction `dir`. The CPU runs after it,
    /// whether or not the step was taken.
    fn move_player(&mut self, dir: MoveDir) -> (r: bool)
        requires
            old(self).wf(),
        ensures
            r,
            final(self).wf(),
            final(self)@ == old(self)@.move_player(dir),
            step_blocked(old(self)@, dir) ==> final(self)@ == old(self)@,
    {
        match self.player {
            PlayerPos::Pos(v) => {
                let target = step(v, dir, self.game_rules.wrap_mode);
                let shown = self.effective_value(self.current_page(), target);
                if self.accessible(shown) {
                    self.player = PlayerPos::Pos(target);
                }
            },
            PlayerPos::Register(r) => {
                let count = self.cpu[0].registers.len();
                let target: usize = match dir {
                    MoveDir::Up if r > 0 => r - 1,
                    MoveDir::Down if r + 1 < count => r + 1,
                    _ => r,
                };
                let shown = self.cpu[0].get_register_effective(
                    target,
                    self.player,
                    self.player_mask(),
                );
                if !self.accessible(shown) {
                    return true;
                }
                self.player = PlayerPos::Register(target);
                let page = self.cpu[0].get_register_effective_r(
                    RegisterId::Page,
                    self.player,
                    self.player_mask(),
                );
                self.change_player_page(page);
            },
        }
        true
    }

    /// Marks the trigger at the player's cell as fired and hands out what it
    /// does.
    fn fire_trigger(&mut self, page_id: u8, key: u16) -> (effect: TriggerKind)
        requires
            old(self).wf(),
            old(self)@.trigger_here() is Some,
            old(self).player is Pos,
            page_id == old(self).player_page,
            key == crate::page::addr_of_pos(old(self).player->Pos_0),
        ensures
            final(self).wf(),
            final(self)@ == old(self)@.mark_fired(),
            effect == old(self)@.trigger_here()->0.effect,
    {
        let mut page = self.pages.remove(&page_id).unwrap();
        let mut trigger = page.triggers.remove(&key).unwrap();
        trigger.triggered = true;
        let effect = copy_effect(&trigger.effect);
        page.triggers.insert(key, trigger);
        self.pages.insert(page_id, page);
        proof {
            let want = old(self)@.mark_fired();
            assert(self@.pages[page_id].triggers =~= want.pages[page_id].triggers);
            assert(self@.pages =~= want.pages);
            self.lemma_pages_full();
        }
        effect
    }

    /// Fires the trigger where the player stands, if there is an active one,
    /// and hands out the text of the message that it shows, if any.
    pub fn apply_triggers(&mut self) -> (message: Option<String>)
        requires
            old(self).wf(),
        ensures
            final(self).wf(),
            final(self)@ == old(self)@.apply_triggers(),
            match message {
                Some(m) => old(self)@.message_here() == Some(m@),
                None => old(self)@.message_here() is None,
            },
    {
        let pos = match self.player {
            PlayerPos::Pos(pos) => pos,
            PlayerPos::Register(_) => {
                return None;
            },
        };
        let key = joinu16(pos);
        let page_id = self.player_page;
        let active = match self.pages.get(&page_id) {
            Some(page) => match page.triggers.get(&key) {
                Some(trigger) => trigger.is_active(),
                None => false,
            },
            None => false,
        };
        if !active {
            return None;
        }
        let effect = self.fire_trigger(page_id, key);
        match effect {
            TriggerKind::SetPC(new_pc) => {
                if self.game_rules.reset_registers_on_trigger {
                    self.reset_registers();
                }
                self.set_pc(0, new_pc);
                None
            },
            TriggerKind::EndOfLevel => {
                self.end_of_level = true;
                None
            },
            TriggerKind::Message(m) => {
                if is_win(&m) {
                    self.end_of_level = true;
                }
                Some(m)
            },
        }
    }

    /// Swaps the data register of CPU `id` with the byte at `addr` of page
    /// `page_id`, and the player with it where the player is on either.
    fn swap(&mut self, id: usize, page_id: u8, addr: u16)
        requires
            old(self).wf(),
            id < old(self).cpu.len(),
        ensures
            final(self).wf(),
            final(self)@ == old(self)@.swap(id as int, page_id, addr),
    {
        if !self.pages.contains_key(&page_id) {
            return ;
        }
        let v = self.cpu[id].get_register(RegisterId::Data).value;
        let mut page = self.pages.remove(&page_id).unwrap();
        let stored = page.memory.get(addr);
        page.memory.set(addr, v);
        self.pages.insert(page_id, page);
        proof {
            self.lemma_pages_full();
        }
        let ghost mid = self@;
        self.set_reg(id, RegisterId::Data, stored);
        let cell = splitu16(addr);
        if self.player_page == page_id && self.player == PlayerPos::Pos(cell) {
            self.player = PlayerPos::Register(RegisterId::Data.index());
        } else if self.player == PlayerPos::Register(RegisterId::Data.index()) {
            self.player = PlayerPos::Pos(cell);
            self.player_page = page_id;
        }
        proof {
            let want = old(self)@.swap(id as int, page_id, addr);
            assert(mid.pages =~= want.pages);
            assert(self@.pages =~= want.pages);
        }
    }

    /// Runs the instruction at the program counter of CPU `id`, on the page
    /// that its page register shows.
    fn step_cpu(&mut self, id: usize)
        requires
            old(self).wf(),
            id < old(self).cpu.len(),
        ensures
            final(self).wf(),
            final(self)@ == old(self)@.step_cpu(id as int),
    {
        let player_mask = self.player_mask();
        let page_id = self.cpu[id].get_register_effective_r(
            RegisterId::Page,
            self.player,
            player_mask,
        );
        let pc = self.cpu[id].pc;
        let instr = self.read_instruction(pc, page_id);
        let compare_value = self.cpu[id].get_register_effective_r(
            RegisterId::Compare,
            self.player,
            player_mask,
        );
        let data = self.cpu[id].get_register_effective_r(
            RegisterId::Data,
            self.player,
            player_mask,
        );
        let next_pc: u16 = if pc < 0xffff {
            pc + 1
        } else {
            pc
        };
        match instr {
            Instruction::NoOp => {},
            Instruction::Swap(pos) => {
                self.set_pc(id, next_pc);
                self.swap(id, page_id, pos);
            },
            Instruction::Jump(target) => {
                self.set_pc(id, next_pc);
                self.set_pc(id, target);
            },
            Instruction::JumpEqual(target) => {
                self.set_pc(id, next_pc);
                if compare_value == 0 {
                    self.set_pc(id, target);
                }
            },
            Instruction::JumpGreater(target) => {
                self.set_pc(id, next_pc);
                if compare_value == 1 {
                    self.set_pc(id, target);
                }
            },
            Instruction::JumpLess(target) => {
                self.set_pc(id, next_pc);
                if compare_value > 1 {
                    self.set_pc(id, target);
                }
            },
            Instruction::Compare(v) => {
                self.set_pc(id, next_pc);
                let result: u8 = if data > v {
                    1
                } else if data < v {
                    0xff
                } else {
                    0
                };
                self.set_reg(id, RegisterId::Compare, result);
            },
            Instruction::Page(v) => {
                self.set_pc(id, next_pc);
                if self.game_rules.page_instruction {
                    self.page_instruction_executed = true;
                    self.change_cpu_page(id, v);
                }
            },
            Instruction::Add(v) => {
                self.set_pc(id, next_pc);
                let sum: u8 = ((data as u16 + v as u16) % 256) as u8;
                self.set_reg(id, RegisterId::Data, sum);
            },
        }
    }

    /// Plays one turn: the player's action, then the trigger at the player's
    /// cell, then, after a step and with the player on the CPU's page, one
    /// instruction of the first CPU. Hands out the text of the message that a
    /// trigger showed, if any. A step toward a cell that shows the player's bit
    /// leaves the player where it was, unless the CPU swaps it away.
    pub fn make_move(&mut self, action: PlayerMove) -> (message: Option<String>)
        requires
            old(self).wf(),
        ensures
            final(self).wf(),
            final(self)@ == old(self)@.make_move(action),
            match message {
                Some(m) => old(self)@.move_message(action) == Some(m@),
                None => old(self)@.move_message(action) is None,
            },
            blocked_turn(old(self)@, action) ==> final(self).player == old(self).player,
    {
        proof {
            if let PlayerMove::Move(dir) = action {
                if blocked_turn(old(self)@, action) {
                    lemma_blocked_move_keeps_player(old(self)@, dir);
                }
            }
        }
        let advance_world = match action {
            PlayerMove::Move(dir) => self.move_player(dir),
            PlayerMove::RotatePage => self.rotate_page(),
        };
        let message = self.apply_triggers();
        if advance_world && self.player_page == self.cpu[0].get_register_effective_r(
            RegisterId::Page,
            self.player,
            self.player_mask(),
        ) {
            self.step_cpu(0);
        }
        self.visited_pages.set(self.player_page, true);
        message
    }

    /// Where the player starts in a grid: at the first cell that holds
    /// `PLAYER_VAL`, rows taken top to bottom and each row left to right, or at
    /// the first cell of the grid where no cell holds it.
    pub fn get_start(grid: &ByteGrid) -> (r: V2)
        ensures
            is_start(grid@, r),
    {
        let mut y: usize = 0;
        while y < 256
            invariant
                y <= 256,
                forall|col: u8, row: u8|
                    row < y ==> grid@[#[trigger] crate::bytegrid::cell_addr(col, row)]
                        != PLAYER_VAL,
            decreases 256 - y,
        {
            let mut x: usize = 0;
            while x < 256
                invariant
                    x <= 256,
                    y < 256,
                    forall|col: u8, row: u8|
                        row < y || (row == y && col < x) ==> grid@[#[trigger] crate::bytegrid::cell_addr(
                            col,
                            row,
                        )] != PLAYER_VAL,
                decreases 256 - x,
            {
                if grid.get_xy(x as u8, y as u8) == PLAYER_VAL {
                    return V2 { x: x as i32, y: y as i32 };
                }
                x += 1;
            }
            y += 1;
        }
        V2::new()
    }

    /// A game of one page, `DEFAULT_PAGE`, with the given grid as its memory
    /// and the triggers of the grid's table. The player starts where
    /// `get_start` says, and that cell is set to zero.
    pub fn from_grid(grid: ByteGrid) -> (r: GamePlayState)
        ensures
            r.wf(),
            is_loaded(grid@, r@),
    {
        let mut state = GamePlayState::new();
        let start = GamePlayState::get_start(&grid);
        state.player = PlayerPos::Pos(start);
        let mut page = PageState::from_grid(grid);
        page.memory.set(joinu16(start), 0);
        state.pages.insert(DEFAULT_PAGE, page);
        proof {
            state.lemma_pages_full();
        }
        state.set_initial_page(DEFAULT_PAGE);
        proof {
            assert(state@.pages =~= Map::<u8, crate::page::PageModel>::empty().insert(
                DEFAULT_PAGE,
                state@.pages[DEFAULT_PAGE],
            ));
        }
        state
    }

    /// A game of one blank page, `DEFAULT_PAGE`, with the player at its first
    /// cell.
    pub fn new_empty() -> (r: GamePlayState)
        ensures
            r.wf(),
            is_loaded(blank_page().memory, r@),
            r.player == PlayerPos::Pos(V2 { x: 0, y: 0 }),
    {
        let grid = ByteGrid::new();
        assert(grid@[crate::bytegrid::cell_addr(0, 0)] == 0);
        GamePlayState::from_grid(grid)
    }
}

/// Whether `start` is where the player starts in a grid with the given
/// cells.
pub open spec fn is_start(memory: Seq<u8>, start: V2) -> bool {
    &&& in_grid(start)
    &&& forall|col: u8, row: u8|
        row < start.y || (row == start.y && col < start.x) ==> memory[#[trigger] crate::bytegrid::cell_addr(
            col,
            row,
        )] != PLAYER_VAL
    &&& memory[crate::page::addr_of_pos(start)] == PLAYER_VAL || (start == V2 { x: 0, y: 0 }
        && forall|col: u8, row: u8|
        memory[#[trigger] crate::bytegrid::cell_addr(col, row)] != PLAYER_VAL)
}

/// Whether `game` is the game that a level of one grid starts as: one page,
/// `DEFAULT_PAGE`, visited, with the grid's cells but for the player's start,
/// which holds zero, and with the triggers of the grid's table; a CPU at
/// address zero on that page; the rules of a level that states none.
pub open spec fn is_loaded(memory: Seq<u8>, game: GameModel) -> bool {
    &&& game.player is Pos
    &&& is_start(memory, game.player->Pos_0)
    &&& game.player_page == DEFAULT_PAGE
    &&& game.player_offset == PLAYER_OFFSET
    &&& game.pages == Map::<u8, crate::page::PageModel>::empty().insert(
        DEFAULT_PAGE,
        crate::page::PageModel {
            memory: memory.update(crate::page::addr_of_pos(game.player->Pos_0), 0),
            triggers: crate::page::table_triggers(memory, 256),
        },
    )
    &&& game.cpu.len() == 1
    &&& game.cpu[0].pc == 0
    &&& registers_are(game.cpu[0].registers, 0, DEFAULT_PAGE, 0xff)
    &&& game.visited == Set::<u8>::empty().insert(DEFAULT_PAGE)
    &&& game.rules == GameRules::standard()
    &&& !game.page_instruction_executed
    &&& !game.end_of_level
}

/// A copy of what a trigger does.
fn copy_effect(effect: &TriggerKind) -> (r: TriggerKind)
    ensures
        r == *effect,
{
    match effect {
        TriggerKind::SetPC(pc) => TriggerKind::SetPC(*pc),
        TriggerKind::EndOfLevel => TriggerKind::EndOfLevel,
        TriggerKind::Message(m) => TriggerKind::Message(m.clone()),
    }
}

/// Whether a message is the one that ends the level.
fn is_win(message: &String) -> (r: bool)
    ensures
        r == (message@ == crate::model::win_text()),
{
    let win = "WIN".to_owned();
    proof {
        reveal_strlit("WIN");
        assert("WIN"@ =~= crate::model::win_text());
    }
    *message == win
}

} // verus!
