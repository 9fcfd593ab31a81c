//! Packed addresses, triggers and pages.

use crate::bytegrid::{cell_addr, pack_addr, ByteGrid, GRID_CELLS};
use crate::vecmath::V2;
use std::collections::HashMap;
use vstd::prelude::*;

verus! {

broadcast use vstd::std_specs::hash::group_hash_axioms;

/// The low eight bits of a coordinate.
pub open spec fn low_byte_spec(v: i32) -> u8 {
    (v as int % 256) as u8
}

/// The low eight bits of a coordinate.
pub fn low_byte(v: i32) -> (r: u8)
    ensures
        r == low_byte_spec(v),
{
    let m: i32 = v % 256;
    if m < 0 {
        (m + 256) as u8
    } else {
        m as u8
    }
}

/// Whether both coordinates lie within the grid.
pub open spec fn in_grid(p: V2) -> bool {
    0 <= p.x <= 255 && 0 <= p.y <= 255
}

/// The packed address of the cell that a position names, each coordinate
/// taken by its low eight bits.
pub open spec fn addr_of_pos(p: V2) -> int {
    cell_addr(low_byte_spec(p.x), low_byte_spec(p.y))
}

/// The position that a packed address names: its high byte is the column,
/// its low byte the row.
pub open spec fn pos_of_addr(addr: u16) -> V2 {
    V2 { x: (addr / 256) as i32, y: (addr % 256) as i32 }
}

/// Packs a column and a row into one address, the column in the high byte.
pub fn joinu8(x: u8, y: u8) -> (r: u16)
    ensures
        r == cell_addr(x, y),
{
    pack_addr(x, y)
}

/// Packs a position into one address.
pub fn joinu16(p: V2) -> (r: u16)
    ensures
        r == addr_of_pos(p),
{
    joinu8(low_byte(p.x), low_byte(p.y))
}

/// The position that a packed address names.
pub fn splitu16(p: u16) -> (r: V2)
    ensures
        r == pos_of_addr(p),
        in_grid(r),
        addr_of_pos(r) == p,
{
    V2 { x: (p / 256) as i32, y: (p % 256) as i32 }
}

/// What a trigger does when it fires.
#[derive(Clone)]
pub enum TriggerKind {
    /// Sets the program counter.
    SetPC(u16),
    /// Ends the level.
    EndOfLevel,
    /// Shows a text.
    Message(String),
}

/// A side effect tied to a cell, fired when the player lands there.
#[derive(Clone)]
pub struct Trigger {
    pub pos: V2,
    pub effect: TriggerKind,
    pub one_time: bool,
    pub triggered: bool,
}

impl Trigger {
    /// Whether the trigger would fire now.
    pub open spec fn active(self) -> bool {
        !self.triggered || !self.one_time
    }

    /// Whether the trigger would fire now: always, unless it fires only once
    /// and has fired.
    pub fn is_active(&self) -> (r: bool)
        ensures
            r == self.active(),
    {
        !self.triggered || !self.one_time
    }
}

/// A page as a mathematical value: its cells by packed address and its
/// triggers by the packed address of their cell.
pub struct PageModel {
    pub memory: Seq<u8>,
    pub triggers: Map<u16, Trigger>,
}

/// The page without triggers whose cells are all zero.
pub open spec fn blank_page() -> PageModel {
    PageModel { memory: Seq::new(GRID_CELLS as nat, |a: int| 0u8), triggers: Map::empty() }
}

/// One grid of memory and the triggers on it.
pub struct PageState {
    pub memory: ByteGrid,
    pub triggers: HashMap<u16, Trigger>,
}

impl View for PageState {
    type V = PageModel;

    open spec fn view(&self) -> PageModel {
        PageModel { memory: self.memory@, triggers: self.triggers@ }
    }
}

/// First row of the table of trigger records in a grid.
pub const TRIGGER_TABLE_START: u8 = 0x24;

/// Whether the record in `row` names a cell: its column and row byte are not
/// both zero. A record of column zero and row zero ends the table.
pub open spec fn record_names_cell(memory: Seq<u8>, row: int) -> bool {
    memory[row] != 0 || memory[256 + row] != 0
}

/// The trigger that the record in `row` stands for: at the cell named by its
/// first two bytes, setting the program counter to the address in its next
/// two, once.
pub open spec fn record_trigger(memory: Seq<u8>, row: int) -> Trigger {
    Trigger {
        pos: V2 { x: memory[row] as i32, y: memory[256 + row] as i32 },
        effect: TriggerKind::SetPC((memory[512 + row] as int * 256 + memory[768 + row]) as u16),
        one_time: true,
        triggered: false,
    }
}

/// The key under which the trigger of the record in `row` is kept.
pub open spec fn record_key(memory: Seq<u8>, row: int) -> u16 {
    (memory[row] as int * 256 + memory[256 + row]) as u16
}

/// Whether every record from the start of the table up to `row` names a cell.
pub open spec fn table_runs_through(memory: Seq<u8>, row: int) -> bool {
    forall|q: int| TRIGGER_TABLE_START <= q <= row ==> record_names_cell(memory, q)
}

/// The triggers of the records in the rows below `end`: each record as far
/// as the table runs, a later record replacing an earlier one for the same
/// cell.
pub open spec fn table_triggers(memory: Seq<u8>, end: int) -> Map<u16, Trigger>
    decreases end,
{
    if end <= TRIGGER_TABLE_START {
        Map::empty()
    } else {
        let before = table_triggers(memory, end - 1);
        if table_runs_through(memory, end - 1) {
            before.insert(record_key(memory, end - 1), record_trigger(memory, end - 1))
        } else {
            before
        }
    }
}

/// Rows after the first record that names no cell add no trigger.
pub proof fn lemma_table_ends(memory: Seq<u8>, stop: int, end: int)
    requires
        TRIGGER_TABLE_START <= stop <= end,
        !record_names_cell(memory, stop),
    ensures
        table_triggers(memory, end) == table_triggers(memory, stop),
    decreases end,
{
    if end > stop {
        lemma_table_ends(memory, stop, end - 1);
    }
}

impl PageState {
    /// A page of zero bytes without triggers.
    pub fn new() -> (r: PageState)
        ensures
            r@ == blank_page(),
    {
        PageState { memory: ByteGrid::new(), triggers: HashMap::new() }
    }

    /// A page with the given memory and no trigger.
    pub fn from_grid_raw(grid: ByteGrid) -> (r: PageState)
        ensures
            r@ == (PageModel { memory: grid@, triggers: Map::empty() }),
    {
        PageState { memory: grid, triggers: HashMap::new() }
    }

    /// A page with the given memory and the triggers of its table of records.
    /// The table holds one record in each row from `TRIGGER_TABLE_START` on,
    /// in the first four columns, and ends before the first record whose
    /// column and row byte are both zero.
    pub fn from_grid(grid: ByteGrid) -> (r: PageState)
        ensures
            r@ == (PageModel { memory: grid@, triggers: table_triggers(grid@, 256) }),
    {
        let mut triggers: HashMap<u16, Trigger> = HashMap::new();
        let mut row: usize = TRIGGER_TABLE_START as usize;
        while row < 256
            invariant
                TRIGGER_TABLE_START <= row <= 256,
                table_runs_through(grid@, row - 1),
                triggers@ == table_triggers(grid@, row as int),
            ensures
                triggers@ == table_triggers(grid@, 256),
            decreases 256 - row,
        {
            let px = grid.get_xy(0, row as u8);
            let py = grid.get_xy(1, row as u8);
            let tx = grid.get_xy(2, row as u8);
            let ty = grid.get_xy(3, row as u8);
            let key = joinu8(px, py);
            if px != 0 || py != 0 {
                triggers.insert(
                    key,
                    Trigger {
                        pos: V2 { x: px as i32, y: py as i32 },
                        effect: TriggerKind::SetPC(joinu8(tx, ty)),
                        one_time: true,
                        triggered: false,
                    },
                );
            } else {
                proof {
                    lemma_table_ends(grid@, row as int, 256);
                }
                break ;
            }
            row += 1;
        }
        PageState { memory: grid, triggers }
    }
}

} // verus!
