//! The register file, the program counter and the instruction set.

use crate::vecmath::V2;
use vstd::prelude::*;

verus! {

/// Where the player is: on a cell of the grid, or on a register.
#[derive(Debug, PartialEq, Eq, Copy, Clone, Structural)]
pub enum PlayerPos {
    Pos(V2),
    Register(usize),
}

/// The registers that every CPU has, in the order of the register file.
#[derive(Debug, PartialEq, Eq, Copy, Clone, Structural)]
pub enum RegisterId {
    Data,
    Page,
    Compare,
}

impl RegisterId {
    /// The place of the register in the register file.
    pub open spec fn place(self) -> int {
        match self {
            RegisterId::Data => 0,
            RegisterId::Page => 1,
            RegisterId::Compare => 2,
        }
    }

    /// The place of the register in the register file.
    pub fn index(self) -> (r: usize)
        ensures
            r == self.place(),
    {
        match self {
            RegisterId::Data => 0,
            RegisterId::Page => 1,
            RegisterId::Compare => 2,
        }
    }
}

impl PlayerPos {
    /// The player on the given register.
    pub fn from_reg(reg: RegisterId) -> (r: PlayerPos)
        ensures
            r == PlayerPos::Register(reg.place() as usize),
    {
        PlayerPos::Register(reg.index())
    }
}

/// One named eight bit register.
pub struct Register {
    pub value: u8,
    pub protected: bool,
    pub name: String,
}

/// A CPU as a mathematical value.
pub struct CpuModel {
    pub registers: Seq<Register>,
    pub pc: u16,
}

/// A register file and a program counter.
pub struct CPU {
    pub registers: Vec<Register>,
    pub pc: u16,
}

impl View for CPU {
    type V = CpuModel;

    open spec fn view(&self) -> CpuModel {
        CpuModel { registers: self.registers@, pc: self.pc }
    }
}

/// The value that register `id` shows: what it stores, with the player's bit
/// set where the player is on that register.
pub open spec fn register_effective(
    registers: Seq<Register>,
    id: int,
    player_pos: PlayerPos,
    player_mask: u8,
) -> u8 {
    if player_pos == PlayerPos::Register(id as usize) {
        registers[id].value | player_mask
    } else {
        registers[id].value
    }
}

/// The register file with `value` stored in register `id`.
pub open spec fn with_register(registers: Seq<Register>, id: int, value: u8) -> Seq<Register> {
    registers.update(
        id,
        Register { value, protected: registers[id].protected, name: registers[id].name },
    )
}

/// Whether `registers` are the three registers of a CPU, named data, page
/// and compare, unprotected, with the given values.
pub open spec fn registers_are(registers: Seq<Register>, data: u8, page: u8, compare: u8) -> bool {
    &&& registers.len() == 3
    &&& registers[0].value == data
    &&& registers[1].value == page
    &&& registers[2].value == compare
    &&& registers[0].name@ == "data"@
    &&& registers[1].name@ == "page"@
    &&& registers[2].name@ == "compare"@
    &&& !registers[0].protected
    &&& !registers[1].protected
    &&& !registers[2].protected
}

impl CpuModel {
    /// The CPU has the data, page and compare registers.
    pub open spec fn wf(self) -> bool {
        self.registers.len() >= 3
    }
}

impl CPU {
    /// A CPU at address zero with the registers data, page and compare, which
    /// hold 0, 0 and 0xff.
    pub fn new() -> (r: CPU)
        ensures
            r@.pc == 0,
            registers_are(r@.registers, 0, 0, 0xff),
    {
        let mut registers: Vec<Register> = Vec::new();
        registers.push(Register { value: 0, protected: false, name: "data".to_owned() });
        registers.push(Register { value: 0, protected: false, name: "page".to_owned() });
        registers.push(Register { value: 0xff, protected: false, name: "compare".to_owned() });
        CPU { pc: 0, registers }
    }

    pub fn get_register(&self, id: RegisterId) -> (r: &Register)
        requires
            self@.wf(),
        ensures
            *r == self@.registers[id.place()],
    {
        &self.registers[id.index()]
    }

    /// Stores `value` in the register; its name and protection stay.
    pub fn set_register(&mut self, id: RegisterId, value: u8)
        requires
            old(self)@.wf(),
        ensures
            final(self)@ == (CpuModel {
                registers: with_register(old(self)@.registers, id.place(), value),
                pc: old(self)@.pc,
            }),
    {
        let i = id.index();
        self.registers[i].value = value;
        assert(self.registers@ =~= with_register(old(self)@.registers, id.place(), value));
    }

    /// The value that register `id` shows to the game.
    pub fn get_register_effective(&self, id: usize, player_pos: PlayerPos, player_mask: u8) -> (r:
        u8)
        requires
            id < self@.registers.len(),
        ensures
            r == register_effective(self@.registers, id as int, player_pos, player_mask),
    {
        let v = self.registers[id].value;
        match player_pos {
            PlayerPos::Register(r) if r == id => v | player_mask,
            _ => v,
        }
    }

    /// The value that the named register shows to the game.
    pub fn get_register_effective_r(
        &self,
        id: RegisterId,
        player_pos: PlayerPos,
        player_mask: u8,
    ) -> (r: u8)
        requires
            self@.wf(),
        ensures
            r == register_effective(self@.registers, id.place(), player_pos, player_mask),
    {
        self.get_register_effective(id.index(), player_pos, player_mask)
    }
}

/// One instruction of the CPU, with its operand.
#[derive(Debug, PartialEq, Eq, Copy, Clone, Structural)]
pub enum Instruction {
    Swap(u16),
    Jump(u16),
    Compare(u8),
    JumpEqual(u16),
    JumpLess(u16),
    JumpGreater(u16),
    Add(u8),
    Page(u8),
    /// No instruction.
    NoOp,
}

impl Instruction {
    /// The address that the instruction names, if it names one.
    pub open spec fn address(self) -> Option<u16> {
        match self {
            Instruction::Swap(v) => Some(v),
            Instruction::Jump(v) => Some(v),
            Instruction::JumpEqual(v) => Some(v),
            Instruction::JumpLess(v) => Some(v),
            Instruction::JumpGreater(v) => Some(v),
            _ => None,
        }
    }

    /// The address that the instruction names, if it names one.
    pub fn mem_operand(&self) -> (r: Option<u16>)
        ensures
            r == self.address(),
    {
        match self {
            Instruction::Swap(v)
            | Instruction::Jump(v)
            | Instruction::JumpEqual(v)
            | Instruction::JumpLess(v)
            | Instruction::JumpGreater(v) => Some(*v),
            Instruction::Compare(_)
            | Instruction::Add(_)
            | Instruction::Page(_)
            | Instruction::NoOp => None,
        }
    }
}

/// The address made of a high and a low byte.
pub open spec fn operand_addr(high: u8, low: u8) -> u16 {
    (high as int * 256 + low as int) as u16
}

/// Opcode of `Jump`: the letter j.
pub const OP_JUMP: u8 = 0x6a;

/// Opcode of `Swap`: the letter s.
pub const OP_SWAP: u8 = 0x73;

/// Opcode of `Compare`: the letter c.
pub const OP_COMPARE: u8 = 0x63;

/// Opcode of `JumpEqual`: the letter e.
pub const OP_JUMP_EQUAL: u8 = 0x65;

/// Opcode of `JumpLess`: the letter l.
pub const OP_JUMP_LESS: u8 = 0x6c;

/// Opcode of `JumpGreater`: the letter g.
pub const OP_JUMP_GREATER: u8 = 0x67;

/// Opcode of `Add`: the letter a.
pub const OP_ADD: u8 = 0x61;

/// Opcode of `Page`: the letter p.
pub const OP_PAGE: u8 = 0x70;

/// The instruction that an opcode stands for, given the two bytes behind it.
/// Instructions with an address take it from both bytes, high byte first; the
/// others take their value from the first byte.
pub open spec fn decode_spec(opcode: u8, first: u8, second: u8) -> Instruction {
    if opcode == OP_JUMP {
        Instruction::Jump(operand_addr(first, second))
    } else if opcode == OP_SWAP {
        Instruction::Swap(operand_addr(first, second))
    } else if opcode == OP_COMPARE {
        Instruction::Compare(first)
    } else if opcode == OP_JUMP_EQUAL {
        Instruction::JumpEqual(operand_addr(first, second))
    } else if opcode == OP_JUMP_LESS {
        Instruction::JumpLess(operand_addr(first, second))
    } else if opcode == OP_JUMP_GREATER {
        Instruction::JumpGreater(operand_addr(first, second))
    } else if opcode == OP_ADD {
        Instruction::Add(first)
    } else if opcode == OP_PAGE {
        Instruction::Page(first)
    } else {
        Instruction::NoOp
    }
}

/// Decodes an opcode and the two bytes behind it.
pub fn decode(opcode: u8, first: u8, second: u8) -> (r: Instruction)
    ensures
        r == decode_spec(opcode, first, second),
{
    let addr: u16 = first as u16 * 256 + second as u16;
    if opcode == OP_JUMP {
        Instruction::Jump(addr)
    } else if opcode == OP_SWAP {
        Instruction::Swap(addr)
    } else if opcode == OP_COMPARE {
        Instruction::Compare(first)
    } else if opcode == OP_JUMP_EQUAL {
        Instruction::JumpEqual(addr)
    } else if opcode == OP_JUMP_LESS {
        Instruction::JumpLess(addr)
    } else if opcode == OP_JUMP_GREATER {
        Instruction::JumpGreater(addr)
    } else if opcode == OP_ADD {
        Instruction::Add(first)
    } else if opcode == OP_PAGE {
        Instruction::Page(first)
    } else {
        Instruction::NoOp
    }
}

} // verus!
